use petri::output::OutputHub;
use petri::subscriber_list::SubscriberList;

#[test]
fn attached_subscriber_gets_history_then_writes() {
    let mut hub: OutputHub<&str> = OutputHub::with_capacity(16);
    hub.write_output(b"early\n");
    let (id, history) = hub.attach("s1").unwrap();
    assert_eq!(history, b"early\n".to_vec());
    hub.write_output(b"late\n");
    assert_eq!(hub.subscribers().len(), 1);
    assert_eq!(hub.subscribers()[0].0, id);
    assert_eq!(hub.history(), b"early\nlate\n".to_vec());
    assert_eq!(hub.detach(id), Some("s1"));
    assert!(hub.subscribers().is_empty());
}

#[test]
fn subscribers_are_kept_in_attach_order() {
    let mut hub: OutputHub<u32> = OutputHub::with_capacity(8);
    let (a, _) = hub.attach(1).unwrap();
    let (b, _) = hub.attach(2).unwrap();
    assert!(a < b);
    let order: Vec<u32> = hub.subscribers().iter().map(|e| e.1).collect();
    assert_eq!(order, vec![1, 2]);
}

#[test]
fn subscriber_list_cancel() {
    let mut list: SubscriberList<char> = SubscriberList::new();
    let a = list.subscribe('a').unwrap();
    let b = list.subscribe('b').unwrap();
    let c = list.subscribe('c').unwrap();
    assert_eq!(list.cancel(b), Some('b'));
    assert_eq!(list.cancel(b), None);
    let ids: Vec<u64> = list.entries().iter().map(|e| e.0).collect();
    assert_eq!(ids, vec![a, c]);
    list.close();
    assert_eq!(list.len(), 0);
    let d = list.subscribe('d').unwrap();
    assert!(d > c);
}

#[test]
fn attach_succeeds_on_a_fresh_hub() {
    let mut hub: OutputHub<u8> = OutputHub::with_capacity(4);
    assert!(hub.attach(1).is_some());
    assert!(hub.attach(2).is_some());
}
