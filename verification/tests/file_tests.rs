use rust_in_action::file_reader::{close, close_unless, open, open_unless, File, FileState};

#[test]
fn new_file_is_empty_and_closed() {
    let f = File::new("f1.txt");
    assert_eq!(f.len(), 0);
    assert_eq!(f.name(), "f1.txt");
    assert_eq!(f.state, FileState::Closed);
}

#[test]
fn read_appends_contents() {
    let f = File::new_with_data("file3.txt", &vec![114, 117, 115, 116, 33]);
    let mut buffer = vec![1u8];
    assert_eq!(f.read(&mut buffer), Ok(5));
    assert_eq!(buffer, vec![1, 114, 117, 115, 116, 33]);
    assert_eq!(f.len(), 5);
}

#[test]
fn text_forms() {
    let f = File::new("f1.txt");
    assert_eq!(f.to_string(), "<f1.txt (CLOSED)>");
    assert_eq!(FileState::Open.to_string(), "OPEN");
    let f = open_unless(f, false).unwrap();
    assert_eq!(f.to_string(), "<f1.txt (OPEN)>");
}

#[test]
fn open_and_close_outcomes() {
    let f = File::new_with_data("d", &vec![9, 8]);
    assert_eq!(open_unless(File::new("d"), true).err().unwrap(), "Permission Denied");
    let f = open_unless(f, false).unwrap();
    assert_eq!(f.state, FileState::Open);
    assert_eq!(close_unless(File::new("d"), true).err().unwrap(), "An error occured");
    let f = close_unless(f, false).unwrap();
    assert_eq!(f.state, FileState::Closed);
    assert_eq!(f.len(), 2);
    assert_eq!(f.name, "d");
}

#[test]
fn open_then_close_round_trip() {
    for _ in 0..100 {
        let f = File::new_with_data("r.txt", &vec![1, 2, 3]);
        match open(f) {
            Ok(g) => {
                assert_eq!(g.state, FileState::Open);
                match close(g) {
                    Ok(h) => {
                        assert_eq!(h.state, FileState::Closed);
                        assert_eq!(h.name(), "r.txt");
                        let mut buf = vec![];
                        h.read(&mut buf).unwrap();
                        assert_eq!(buf, vec![1, 2, 3]);
                    }
                    Err(e) => assert_eq!(e, "An error occured"),
                }
            }
            Err(e) => assert_eq!(e, "Permission Denied"),
        }
    }
}
