//! Tests of the image module.
use terminal::image::{parse_kitty_command, ImagePlacement, ImageStore, TerminalImage};

#[test]
fn test_image_store() {
    let mut store = ImageStore::new();
    
    let image = TerminalImage {
        id: 0,
        data: vec![0; 100],
        width: 10,
        height: 10,
        cols: 5,
        rows: 3,
        placement: ImagePlacement::Cursor,
    };
    
    let id = store.add_image(image);
    assert_eq!(id, 1);
    
    let retrieved = store.get_image(id);
    assert!(retrieved.is_some());
    
    store.remove_image(id);
    assert!(store.get_image(id).is_none());
}

#[test]
fn test_parse_kitty_command() {
    let params = "a=T,i=1,t=f,s=1024,v=768";
    let result = parse_kitty_command(params);
    
    assert_eq!(result.get("a"), Some(&"T".to_string()));
    assert_eq!(result.get("i"), Some(&"1".to_string()));
    assert_eq!(result.get("t"), Some(&"f".to_string()));
    assert_eq!(result.get("s"), Some(&"1024".to_string()));
    assert_eq!(result.get("v"), Some(&"768".to_string()));
}
