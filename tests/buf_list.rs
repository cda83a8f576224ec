use petri::buf_list::BufList;
use petri::id::Id;
use petri::vec_ext::VecExt;

#[test]
fn buf_list_drops_oldest() {
    let mut list = BufList::with_capacity(2);
    list.push(b"a".to_vec());
    list.push(b"bc".to_vec());
    assert_eq!(list.peek(), b"abc".to_vec());
    list.push(b"d".to_vec());
    assert_eq!(list.peek(), b"bcd".to_vec());
    assert_eq!(list.consume(), b"bcd".to_vec());
    assert_eq!(list.peek(), Vec::<u8>::new());
}

#[test]
fn buf_list_default_keeps_eight() {
    let mut list = BufList::default();
    for i in 0..10u8 {
        list.push(vec![i]);
    }
    assert_eq!(list.peek(), (2..10u8).collect::<Vec<u8>>());
}

#[test]
fn id_round_trip() {
    let id = Id::new("abc");
    assert_eq!(id.as_str(), "abc");
    assert_eq!(id.to_string(), "abc");
}

#[test]
fn split_off_after_last_match() {
    let mut v = vec![1, 2, 3, 4, 2, 5];
    let head = v.split_off_with(|x| *x == 2);
    assert_eq!(head, Some(vec![1, 2, 3, 4, 2]));
    assert_eq!(v, vec![5]);
    let none = v.split_off_with(|x| *x == 9);
    assert_eq!(none, None);
    assert_eq!(v, vec![5]);
}
