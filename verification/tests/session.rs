use litevpn::session::ClientSlot;
use litevpn::tun::TunOptions;

#[test]
fn newer_client_replaces_older() {
    let mut slot: ClientSlot<&str> = ClientSlot::new();
    assert_eq!(slot.owner_id(), None);
    let (first, replaced) = slot.take_over("conn-a");
    assert_eq!(first, 1);
    assert!(replaced.is_none());
    let (second, replaced) = slot.take_over("conn-b");
    assert_eq!(second, 2);
    assert_eq!(replaced, Some((1, "conn-a")));
    assert!(!slot.release(first));
    assert_eq!(slot.owner_id(), Some(2));
    assert!(slot.release(second));
    assert_eq!(slot.owner_id(), None);
    assert!(!slot.release(second));
}

#[test]
fn tun_name_only_when_given() {
    let mut o = TunOptions {
        name: "utun7".to_string(),
        address: [10, 66, 0, 2],
        prefix: 24,
        destination: Some([10, 66, 0, 1]),
        mtu: 1300,
        enable_linux_offload: false,
        tx_queue_len: None,
    };
    assert!(o.names_device());
    o.name = "  ".to_string();
    assert!(!o.names_device());
    o.name = String::new();
    assert!(!o.names_device());
}
