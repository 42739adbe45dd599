//! Reproducible byte streams for benchmarks and stress runs, and the runs that
//! hold the terminal to its invariants.
use vstd::prelude::*;
use vstd::utf8::*;

use crate::grid::view::strings;
use crate::grid::{Grid, WinSize};
use crate::parser::Parser;
use crate::text::{parse_large, put_number, put_str, same_text, unsigned_number};

verus! {

// ---------------------------------------------------------------------------
// Random bytes
// ---------------------------------------------------------------------------

/// One step of SplitMix64: the number that a state gives.
pub open spec fn mixed(state: u64) -> u64 {
    let a = (state ^ (state >> 30u64)).wrapping_mul(0xBF58476D1CE4E5B9);
    let b = (a ^ (a >> 27u64)).wrapping_mul(0x94D049BB133111EB);
    b ^ (b >> 31u64)
}

/// The state after `state`.
pub open spec fn stepped(state: u64) -> u64 {
    state.wrapping_add(0x9E3779B97F4A7C15)
}

/// The byte that comes from the state after `state`.
pub open spec fn byte_after(state: u64) -> u8 {
    (mixed(stepped(state)) >> 56u64) as u8
}

/// SplitMix64, a small deterministic generator.
#[derive(Debug)]
pub struct Rng(pub u64);

impl Rng {
    /// The next number.
    pub fn next_u64(&mut self) -> (r: u64)
        ensures
            final(self).0 == stepped(old(self).0),
            r == mixed(final(self).0),
    {
        self.0 = self.0.wrapping_add(0x9E3779B97F4A7C15);
        let z: u64 = self.0;
        let a: u64 = (z ^ (z >> 30u64)).wrapping_mul(0xBF58476D1CE4E5B9);
        let b: u64 = (a ^ (a >> 27u64)).wrapping_mul(0x94D049BB133111EB);
        b ^ (b >> 31u64)
    }

    /// The next byte.
    pub fn next_u8(&mut self) -> (r: u8)
        ensures
            final(self).0 == stepped(old(self).0),
            r == byte_after(old(self).0),
    {
        (self.next_u64() >> 56u64) as u8
    }
}

/// A generated byte and the state after it: uniform bytes (mode 0), a stream
/// heavy in introducers (1), printable text (2), or parameter soup.
pub open spec fn generated(mode: u8, state: u64) -> (u8, u64) {
    let first = byte_after(state);
    let once = stepped(state);
    let second = byte_after(once);
    let twice = stepped(once);
    if mode == 0 {
        (first, once)
    } else if mode == 1 {
        if first % 4 == 0 {
            (0x1bu8, once)
        } else if first % 4 == 1 {
            (0x9bu8, once)
        } else if first % 4 == 2 {
            (0x90u8, once)
        } else {
            (second, twice)
        }
    } else if mode == 2 {
        ((0x20 + first % 95) as u8, once)
    } else if first % 4 == 0 {
        ((0x30 + second % 10) as u8, twice)
    } else if first % 4 == 1 {
        (0x3bu8, once)
    } else if first % 4 == 2 {
        (0x1bu8, once)
    } else {
        ((second % 0x80) as u8, twice)
    }
}

/// Generate a byte. Each mode stresses a different path of the parser.
pub fn gen_byte(mode: u8, rng: &mut Rng) -> (r: u8)
    ensures
        (r, final(rng).0) == generated(mode, old(rng).0),
{
    let first: u8 = rng.next_u8();
    if mode == 0 {
        first
    } else if mode == 1 {
        if first % 4 == 0 {
            0x1b
        } else if first % 4 == 1 {
            0x9b
        } else if first % 4 == 2 {
            0x90
        } else {
            rng.next_u8()
        }
    } else if mode == 2 {
        0x20 + first % 95
    } else if first % 4 == 0 {
        0x30 + rng.next_u8() % 10
    } else if first % 4 == 1 {
        0x3b
    } else if first % 4 == 2 {
        0x1b
    } else {
        rng.next_u8() % 0x80
    }
}

// ---------------------------------------------------------------------------
// Stress runs
// ---------------------------------------------------------------------------

/// What a stress run checks of a terminal.
pub open spec fn sound(grid: Grid) -> bool {
    &&& grid.cursor.row < grid.screen.rows
    &&& grid.cursor.col <= grid.screen.cols
    &&& grid.screen.scrollback@.len() <= grid.screen.scrollback_capacity
    &&& grid.screen.sixel_images@.len() <= 64
}

/// The beginning of a report.
pub open spec fn report_head(seed: u64, bytes: u64) -> Seq<char> {
    "seed "@ + crate::text::decimal_text(seed as nat) + " after "@ + crate::text::decimal_text(
        bytes as nat,
    ) + " bytes: "@
}

/// What is wrong with a terminal, in the order in which it is checked.
pub open spec fn report(grid: Grid, seed: u64, bytes: u64) -> Seq<char> {
    let n = |v: int| crate::text::decimal_text(v as nat);
    if grid.cursor.row >= grid.screen.rows {
        report_head(seed, bytes) + "cursor row "@ + n(grid.cursor.row as int)
            + " out of bounds ("@ + n(grid.screen.rows as int) + ")"@
    } else if grid.cursor.col > grid.screen.cols {
        report_head(seed, bytes) + "cursor col "@ + n(grid.cursor.col as int)
            + " out of bounds ("@ + n(grid.screen.cols as int) + ")"@
    } else if grid.screen.scrollback@.len() > grid.screen.scrollback_capacity {
        report_head(seed, bytes) + "scrollback "@ + n(grid.screen.scrollback@.len() as int)
            + " > capacity "@ + n(grid.screen.scrollback_capacity as int)
    } else {
        report_head(seed, bytes) + "sixel image backlog grew unbounded"@
    }
}

/// Check the invariants that must hold after any byte stream: the cursor is on
/// the screen, the scrollback is within its capacity, and the images are few.
pub fn check_invariants(grid: &Grid, seed: u64, bytes: u64) -> (r: Result<(), String>)
    ensures
        r is Ok <==> sound(*grid),
        r matches Err(e) ==> e@ == report(*grid, seed, bytes),
        grid.wf() ==> r is Ok,
{
    let mut e = String::new();
    e.append("seed ");
    put_number(&mut e, seed);
    e.append(" after ");
    put_number(&mut e, bytes);
    e.append(" bytes: ");
    proof {
        assert(e@ =~= report_head(seed, bytes));
    }
    if grid.cursor.row >= grid.screen.rows {
        e.append("cursor row ");
        put_number(&mut e, grid.cursor.row as u64);
        e.append(" out of bounds (");
        put_number(&mut e, grid.screen.rows as u64);
        e.append(")");
        return Err(e);
    }
    if grid.cursor.col > grid.screen.cols {
        e.append("cursor col ");
        put_number(&mut e, grid.cursor.col as u64);
        e.append(" out of bounds (");
        put_number(&mut e, grid.screen.cols as u64);
        e.append(")");
        return Err(e);
    }
    if grid.screen.scrollback.len() > grid.screen.scrollback_capacity {
        e.append("scrollback ");
        put_number(&mut e, grid.screen.scrollback.len() as u64);
        e.append(" > capacity ");
        put_number(&mut e, grid.screen.scrollback_capacity as u64);
        return Err(e);
    }
    if grid.screen.sixel_images.len() > 64 {
        e.append("sixel image backlog grew unbounded");
        return Err(e);
    }
    proof {
        if grid.wf() {
            assert(grid@.screen.scrollback.len() == grid.screen.scrollback@.len());
            assert(grid@.screen.images.len() == grid.screen.sixel_images@.len());
        }
    }
    Ok(())
}

/// Run one seed: `bytes` generated bytes through a fresh parser and grid, with
/// the invariants checked as they go. No stream ever breaks them.
pub fn run_seed(seed: u64, mode: u8, bytes: usize, cols: u16, rows: u16) -> (r: Result<(), String>)
    requires
        cols >= 1,
        rows >= 1,
    ensures
        r is Ok,
{
    let mut rng = Rng(seed ^ 0x5EED_5EED);
    let mut grid = Grid::new(WinSize { cols, rows }, 4096);
    let mut parser = Parser::new();
    let mut processed: usize = 0;
    while processed < bytes
        invariant
            processed <= bytes,
            grid.wf(),
            parser@.wf(),
        decreases bytes - processed,
    {
        let take: usize = if bytes - processed < 8192 {
            bytes - processed
        } else {
            8192
        };
        let mut chunk: Vec<u8> = Vec::new();
        let mut i: usize = 0;
        while i < take
            invariant
                i <= take,
            decreases take - i,
        {
            chunk.push(gen_byte(mode, &mut rng));
            i += 1;
        }
        parser.advance_bytes(&mut grid, chunk.as_slice());
        processed += take;
        match check_invariants(&grid, seed, processed as u64) {
            Ok(()) => {},
            Err(e) => {
                return Err(e);
            },
        }
    }
    Ok(())
}

// ---------------------------------------------------------------------------
// Benchmark payloads
// ---------------------------------------------------------------------------

/// One step of the linear congruential generator of the payloads.
pub open spec fn congruent(state: u32) -> u32 {
    state.wrapping_mul(1103515245).wrapping_add(12345)
}

/// The state of a generator after `n` steps.
pub open spec fn congruent_after(seed: u32, n: nat) -> u32
    decreases n,
{
    if n == 0 {
        seed
    } else {
        congruent(congruent_after(seed, (n - 1) as nat))
    }
}

/// `n` characters of printable text, with a newline whenever the text so far
/// is a multiple of a hundred bytes long.
pub open spec fn ascii_text(n: nat) -> Seq<u8>
    decreases n,
{
    if n == 0 {
        Seq::empty()
    } else {
        let v = (congruent_after(0x12345678, n) >> 16u32) & 0xff;
        let s = ascii_text((n - 1) as nat).push((0x20 + v % 95) as u8);
        if s.len() % 100 == 0 {
            s.push(0x0au8)
        } else {
            s
        }
    }
}

/// A text of `n` characters has at most one newline for each.
proof fn ascii_text_len(n: nat)
    ensures
        n <= ascii_text(n).len() <= 2 * n,
    decreases n,
{
    if n > 0 {
        ascii_text_len((n - 1) as nat);
    }
}

/// Generate `mib` MiB of printable ASCII, plus newlines to exercise scrolling.
pub fn generate_ascii_payload(mib: usize) -> (r: Vec<u8>)
    requires
        mib * 0x10_0000 * 2 <= usize::MAX,
    ensures
        r@ == ascii_text((mib * 0x10_0000) as nat),
{
    let len: usize = mib * 0x10_0000;
    let mut buf: Vec<u8> = Vec::new();
    let mut state: u32 = 0x12345678;
    let mut i: usize = 0;
    proof {
        assert(buf@ =~= ascii_text(0));
    }
    while i < len
        invariant
            i <= len,
            len * 2 <= usize::MAX,
            state == congruent_after(0x12345678, i as nat),
            buf@ == ascii_text(i as nat),
        decreases len - i,
    {
        state = state.wrapping_mul(1103515245).wrapping_add(12345);
        let val: u32 = (state >> 16u32) & 0xff;
        proof {
            assert(((state >> 16u32) & 0xff) % 95 < 95) by (bit_vector);
            ascii_text_len(i as nat);
        }
        buf.push((0x20 + val % 95) as u8);
        if buf.len() % 100 == 0 {
            buf.push(0x0a);
        }
        i += 1;
    }
    buf
}

/// Generate `mib` MiB of random bytes, to stress the parser's handling of
/// invalid UTF-8, control sequences, and edge cases.
pub fn generate_random_payload(mib: usize) -> (r: Vec<u8>)
    requires
        mib * 0x10_0000 <= usize::MAX,
    ensures
        r@ == Seq::new(
            (mib * 0x10_0000) as nat,
            |i: int| (congruent_after(0xDEADBEEF, (i + 1) as nat) >> 16u32) as u8,
        ),
{
    let len: usize = mib * 0x10_0000;
    let mut buf: Vec<u8> = Vec::new();
    let mut state: u32 = 0xDEADBEEF;
    let mut i: usize = 0;
    while i < len
        invariant
            i <= len,
            state == congruent_after(0xDEADBEEF, i as nat),
            buf@.len() == i,
            forall|j: int|
                0 <= j < i ==> #[trigger] buf@[j] == (congruent_after(
                    0xDEADBEEF,
                    (j + 1) as nat,
                ) >> 16u32) as u8,
        decreases len - i,
    {
        state = state.wrapping_mul(1103515245).wrapping_add(12345);
        buf.push((state >> 16u32) as u8);
        i += 1;
    }
    proof {
        assert(buf@ =~= Seq::new(
            len as nat,
            |i: int| (congruent_after(0xDEADBEEF, (i + 1) as nat) >> 16u32) as u8,
        ));
    }
    buf
}

// ---------------------------------------------------------------------------
// Command lines
// ---------------------------------------------------------------------------

/// What a benchmark run is asked to do.
#[derive(Debug)]
pub struct Args {
    pub cols: u16,
    pub rows: u16,
    pub scrollback: usize,
    pub ascii_mib: usize,
    pub random_mib: usize,
    pub runs: usize,
    pub bulk_output: bool,
    pub json: bool,
    pub label: String,
}

/// What arguments say.
#[verifier::ext_equal]
pub struct ArgsState {
    pub cols: int,
    pub rows: int,
    pub scrollback: int,
    pub ascii_mib: int,
    pub random_mib: int,
    pub runs: int,
    pub bulk_output: bool,
    pub json: bool,
    pub label: Seq<char>,
}

impl View for Args {
    type V = ArgsState;

    open spec fn view(&self) -> ArgsState {
        ArgsState {
            cols: self.cols as int,
            rows: self.rows as int,
            scrollback: self.scrollback as int,
            ascii_mib: self.ascii_mib as int,
            random_mib: self.random_mib as int,
            runs: self.runs as int,
            bulk_output: self.bulk_output,
            json: self.json,
            label: self.label@,
        }
    }
}

impl ArgsState {
    /// A run without arguments.
    pub open spec fn initial() -> ArgsState {
        ArgsState {
            cols: 80,
            rows: 24,
            scrollback: 500,
            ascii_mib: 100,
            random_mib: 10,
            runs: 3,
            bulk_output: false,
            json: false,
            label: Seq::empty(),
        }
    }
}

impl Default for Args {
    fn default() -> (r: Self)
        ensures
            r@ == ArgsState::initial(),
    {
        let r = Args {
            cols: 80,
            rows: 24,
            scrollback: 500,
            ascii_mib: 100,
            random_mib: 10,
            runs: 3,
            bulk_output: false,
            json: false,
            label: String::new(),
        };
        proof {
            assert(r@ =~= ArgsState::initial());
        }
        r
    }
}

/// The number that a text writes, or `otherwise`.
pub open spec fn number_or(s: Seq<char>, limit: int, otherwise: int) -> int {
    match unsigned_number(encode_utf8(s), 10, limit) {
        Some(n) => n,
        None => otherwise,
    }
}

fn read_number(s: &str, limit: u64, otherwise: u64) -> (r: u64)
    ensures
        r == number_or(s@, limit as int, otherwise as int),
        otherwise <= limit ==> r <= limit,
{
    let mut bytes: Vec<u8> = Vec::new();
    put_str(&mut bytes, s);
    proof {
        assert(bytes@ =~= encode_utf8(s@));
    }
    match parse_large(bytes.as_slice(), 10, limit) {
        Some(n) => n,
        None => otherwise,
    }
}

fn read_u16(s: &str, otherwise: u16) -> (r: u16)
    ensures
        r == number_or(s@, 65535, otherwise as int),
{
    read_number(s, 65535, otherwise as u64) as u16
}

fn read_usize(s: &str, otherwise: usize) -> (r: usize)
    ensures
        r == number_or(s@, usize::MAX as int, otherwise as int),
{
    read_number(s, usize::MAX as u64, otherwise as u64) as usize
}

/// The options that a value follows.
pub open spec fn takes_value(name: Seq<char>) -> bool {
    name == "--cols"@ || name == "--rows"@ || name == "--scrollback"@ || name == "--ascii-mib"@
        || name == "--random-mib"@ || name == "--runs"@ || name == "--label"@
}

/// The arguments with one option and its value read.
pub open spec fn with_value(a: ArgsState, name: Seq<char>, value: Seq<char>) -> ArgsState {
    if name == "--cols"@ {
        ArgsState { cols: number_or(value, 65535, a.cols), ..a }
    } else if name == "--rows"@ {
        ArgsState { rows: number_or(value, 65535, a.rows), ..a }
    } else if name == "--scrollback"@ {
        ArgsState { scrollback: number_or(value, usize::MAX as int, a.scrollback), ..a }
    } else if name == "--ascii-mib"@ {
        ArgsState { ascii_mib: number_or(value, usize::MAX as int, a.ascii_mib), ..a }
    } else if name == "--random-mib"@ {
        ArgsState { random_mib: number_or(value, usize::MAX as int, a.random_mib), ..a }
    } else if name == "--runs"@ {
        ArgsState { runs: number_or(value, usize::MAX as int, a.runs), ..a }
    } else {
        ArgsState { label: value, ..a }
    }
}

/// The arguments with one flag read.
pub open spec fn with_flag(a: ArgsState, name: Seq<char>) -> ArgsState {
    if name == "--bulk-output"@ {
        ArgsState { bulk_output: true, ..a }
    } else if name == "--json"@ {
        ArgsState { json: true, ..a }
    } else {
        a
    }
}

/// The arguments from `i` on read into `a`. Reading ends at an option that
/// lacks its value; what is no option is passed over.
pub open spec fn args_from(a: ArgsState, args: Seq<Seq<char>>, i: int) -> ArgsState
    decreases args.len() - i,
{
    if i < 0 || i >= args.len() {
        a
    } else if takes_value(args[i]) {
        if i + 1 < args.len() {
            args_from(with_value(a, args[i], args[i + 1]), args, i + 2)
        } else {
            a
        }
    } else {
        args_from(with_flag(a, args[i]), args, i + 1)
    }
}

impl Args {
    fn set_value(&mut self, name: &str, value: &str)
        requires
            takes_value(name@),
        ensures
            final(self)@ == with_value(old(self)@, name@, value@),
    {
        if same_text(name, "--cols") {
            self.cols = read_u16(value, self.cols);
        } else if same_text(name, "--rows") {
            self.rows = read_u16(value, self.rows);
        } else if same_text(name, "--scrollback") {
            self.scrollback = read_usize(value, self.scrollback);
        } else if same_text(name, "--ascii-mib") {
            self.ascii_mib = read_usize(value, self.ascii_mib);
        } else if same_text(name, "--random-mib") {
            self.random_mib = read_usize(value, self.random_mib);
        } else if same_text(name, "--runs") {
            self.runs = read_usize(value, self.runs);
        } else {
            self.label = value.to_owned();
        }
    }
}

fn has_value(name: &str) -> (r: bool)
    ensures
        r == takes_value(name@),
{
    same_text(name, "--cols") || same_text(name, "--rows") || same_text(name, "--scrollback")
        || same_text(name, "--ascii-mib") || same_text(name, "--random-mib") || same_text(
        name,
        "--runs",
    ) || same_text(name, "--label")
}

/// Read the command line of a benchmark, without the program's name.
pub fn parse_bench_args(args: &Vec<String>) -> (r: Args)
    ensures
        r@ == args_from(ArgsState::initial(), strings(args@), 0),
{
    let mut a = Args::default();
    let n: usize = args.len();
    let ghost all = strings(args@);
    let ghost goal = args_from(ArgsState::initial(), all, 0);
    let mut i: usize = 0;
    while i < n
        invariant
            i <= n,
            n == args@.len(),
            all == strings(args@),
            goal == args_from(ArgsState::initial(), all, 0),
            args_from(a@, all, i as int) == goal,
        decreases n - i,
    {
        let name = args[i].as_str();
        proof {
            assert(all[i as int] == name@);
        }
        if has_value(name) {
            if i + 1 >= n {
                return a;
            }
            let value = args[i + 1].as_str();
            proof {
                assert(all[i + 1] == value@);
            }
            a.set_value(name, value);
            i += 2;
        } else {
            let ghost before = a@;
            if same_text(name, "--bulk-output") {
                a.bulk_output = true;
            } else if same_text(name, "--json") {
                a.json = true;
            }
            proof {
                assert(a@ =~= with_flag(before, name@));
            }
            i += 1;
        }
    }
    a
}

/// How many bytes a text asks for: a number, or a number of MiB before an `M`
/// or `m`, of which eight are taken where it is malformed. `None` where the
/// bytes cannot be counted.
pub open spec fn byte_count(s: Seq<char>, otherwise: int) -> Option<int> {
    let bytes = if s.len() > 0 && (s.last() == 'M' || s.last() == 'm') {
        number_or(s.drop_last(), usize::MAX as int, 8) * 0x10_0000
    } else {
        number_or(s, usize::MAX as int, otherwise)
    };
    if bytes <= usize::MAX {
        Some(bytes)
    } else {
        None
    }
}

/// Read how many bytes a stress run takes.
pub fn parse_byte_count(s: &str, otherwise: usize) -> (r: Option<usize>)
    ensures
        r is Some <==> byte_count(s@, otherwise as int) is Some,
        r matches Some(n) ==> byte_count(s@, otherwise as int) == Some(n as int),
{
    let chars = crate::text::chars_of(s);
    let n: usize = chars.len();
    if n > 0 && (chars[n - 1] == 'M' || chars[n - 1] == 'm') {
        let head = crate::text::string_of(chars.as_slice(), 0, n - 1);
        proof {
            assert(head@ =~= s@.drop_last());
        }
        let mib: usize = read_usize(head.as_str(), 8);
        mib.checked_mul(0x10_0000)
    } else {
        Some(read_usize(s, otherwise))
    }
}

} // verus!
