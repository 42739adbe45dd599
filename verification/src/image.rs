//! Images by id, and kitty graphics commands as text.
use std::collections::HashMap;
use vstd::hash_map::StringHashMap;
use vstd::prelude::*;

use crate::codec::{base64_encode, base64_text};
use crate::text::{char_from, chars_of, find_char, find_char_bounds, string_of};

verus! {

broadcast use vstd::std_specs::hash::group_hash_axioms;

/// Where an image stands.
#[derive(Debug, Clone, Copy, PartialEq, Eq, Structural)]
pub enum ImagePlacement {
    /// At the cursor.
    Cursor,
    /// At a column and row.
    Coordinates(i32, i32),
    /// At a distance from the cursor.
    Relative(i32, i32),
}

/// An image in the terminal.
#[derive(Debug)]
pub struct TerminalImage {
    pub id: u32,
    /// RGBA pixels.
    pub data: Vec<u8>,
    pub width: u32,
    pub height: u32,
    /// Columns and rows that it takes up.
    pub cols: u32,
    pub rows: u32,
    pub placement: ImagePlacement,
}

/// Images by id.
#[derive(Debug)]
pub struct ImageStore {
    images: HashMap<u32, TerminalImage>,
    next_id: u32,
}

impl View for ImageStore {
    type V = Map<u32, TerminalImage>;

    closed spec fn view(&self) -> Map<u32, TerminalImage> {
        self.images@
    }
}

impl ImageStore {
    /// The id that the next image gets.
    pub closed spec fn next(&self) -> u32 {
        self.next_id
    }

    /// Ids are handed out in ascending order: no image has an id that is still
    /// to come.
    pub closed spec fn wf(&self) -> bool {
        self.next_id >= 1 && forall|k: u32| #[trigger]
            self.images@.dom().contains(k) ==> 1 <= k < self.next_id
    }

    /// No images.
    pub fn new() -> (r: Self)
        ensures
            r.wf(),
            r@ == Map::<u32, TerminalImage>::empty(),
            r.next() == 1,
    {
        Self { images: HashMap::new(), next_id: 1 }
    }

    /// Add an image; the result is its id, which no image had before.
    pub fn add_image(&mut self, image: TerminalImage) -> (id: u32)
        requires
            old(self).wf(),
            old(self).next() < u32::MAX,
        ensures
            final(self).wf(),
            id == old(self).next(),
            final(self).next() == old(self).next() + 1,
            !old(self)@.dom().contains(id),
            final(self)@ == old(self)@.insert(id, image),
    {
        let id: u32 = self.next_id;
        self.next_id = id + 1;
        self.images.insert(id, image);
        id
    }

    /// The image with this id.
    pub fn get_image(&self, id: u32) -> (r: Option<&TerminalImage>)
        ensures
            match r {
                Some(i) => self@.dom().contains(id) && *i == self@[id],
                None => !self@.dom().contains(id),
            },
    {
        self.images.get(&id)
    }

    /// Remove the image with this id.
    pub fn remove_image(&mut self, id: u32) -> (r: Option<TerminalImage>)
        requires
            old(self).wf(),
        ensures
            final(self).wf(),
            final(self).next() == old(self).next(),
            final(self)@ == old(self)@.remove(id),
            match r {
                Some(i) => old(self)@.dom().contains(id) && i == old(self)@[id],
                None => !old(self)@.dom().contains(id),
            },
    {
        self.images.remove(&id)
    }

    /// Remove all images. Their ids are not handed out again.
    pub fn clear(&mut self)
        requires
            old(self).wf(),
        ensures
            final(self).wf(),
            final(self).next() == old(self).next(),
            final(self)@ == Map::<u32, TerminalImage>::empty(),
    {
        self.images.clear();
    }

    /// All images.
    pub fn images(&self) -> (r: &HashMap<u32, TerminalImage>)
        ensures
            r@ == self@,
    {
        &self.images
    }
}

impl Default for ImageStore {
    fn default() -> (r: Self)
        ensures
            r.wf(),
            r@ == Map::<u32, TerminalImage>::empty(),
            r.next() == 1,
    {
        Self::new()
    }
}

/// The pieces `key=value` of a command, from position `from` on, taken into
/// `m`; a later value of a key takes the place of an earlier one, and a piece
/// without `=` is passed over.
pub open spec fn command_fields(s: Seq<char>, from: int, m: Map<Seq<char>, Seq<char>>) -> Map<
    Seq<char>,
    Seq<char>,
>
    decreases s.len() - from,
{
    if from < 0 || from > s.len() {
        m
    } else {
        proof {
            find_char_bounds(s, ',', from);
        }
        let end = find_char(s, ',', from);
        let eq = find_char(s, '=', from);
        let now = if eq < end {
            m.insert(s.subrange(from, eq), s.subrange(eq + 1, end))
        } else {
            m
        };
        if end < s.len() && end >= from {
            command_fields(s, end + 1, now)
        } else {
            now
        }
    }
}

/// The values of a map as text.
pub open spec fn text_map(m: Map<Seq<char>, String>) -> Map<Seq<char>, Seq<char>> {
    Map::new(|k: Seq<char>| m.dom().contains(k), |k: Seq<char>| m[k]@)
}

/// Read the fields of a kitty graphics command.
pub fn parse_kitty_command(params: &str) -> (r: StringHashMap<String>)
    ensures
        text_map(r@) == command_fields(params@, 0, Map::empty()),
{
    let s = chars_of(params);
    let mut result: StringHashMap<String> = StringHashMap::new();
    let mut from: usize = 0;
    proof {
        assert(text_map(result@) =~= Map::empty());
    }
    loop
        invariant
            s@ == params@,
            from <= s@.len(),
            command_fields(s@, from as int, text_map(result@)) == command_fields(
                params@,
                0,
                Map::empty(),
            ),
        decreases s@.len() - from,
    {
        let end: usize = char_from(&s, ',', from);
        let eq: usize = char_from(&s, '=', from);
        if eq < end {
            let key = string_of(s.as_slice(), from, eq);
            let value = string_of(s.as_slice(), eq + 1, end);
            let ghost before = result@;
            result.insert(key, value);
            proof {
                assert(text_map(result@) =~= text_map(before).insert(key@, value@));
            }
        }
        if end >= s.len() {
            return result;
        }
        from = end + 1;
    }
}

/// A kitty graphics command, with its data in base64.
pub fn create_kitty_command(command: &str, data: Option<&[u8]>) -> (r: String)
    requires
        data matches Some(d) ==> d@.len() <= usize::MAX / 4,
    ensures
        r@ == "\x1b_G"@ + command@ + (match data {
            Some(d) => ","@ + base64_text(d@),
            None => Seq::empty(),
        }) + "\x1b\\"@,
{
    let mut out = String::new();
    out.append("\x1b_G");
    out.append(command);
    if let Some(d) = data {
        let encoded = base64_encode(d);
        out.append(",");
        out.append(encoded.as_str());
    }
    out.append("\x1b\\");
    proof {
        assert(out@ =~= "\x1b_G"@ + command@ + (match data {
            Some(d) => ","@ + base64_text(d@),
            None => Seq::empty(),
        }) + "\x1b\\"@);
    }
    out
}

} // verus!
