use lose_net_stack::TcpFlags;

#[test]
fn named_flags_have_their_wire_bits() {
    assert_eq!(TcpFlags::fin().bits(), 0x01);
    assert_eq!(TcpFlags::syn().bits(), 0x02);
    assert_eq!(TcpFlags::rst().bits(), 0x04);
    assert_eq!(TcpFlags::psh().bits(), 0x08);
    assert_eq!(TcpFlags::ack().bits(), 0x10);
    assert_eq!(TcpFlags::urg().bits(), 0x20);
    assert_eq!(TcpFlags::empty().bits(), 0);
    assert!(TcpFlags::empty().is_empty());
    assert!(!TcpFlags::syn().is_empty());
}

#[test]
fn or_composes_flags() {
    let syn_ack = TcpFlags::syn() | TcpFlags::ack();
    assert_eq!(syn_ack.bits(), 0x12);
    assert_eq!(syn_ack, TcpFlags::from_bits(0x12));
    assert_eq!(syn_ack, TcpFlags::syn().union(TcpFlags::ack()));
    assert_eq!(syn_ack, TcpFlags::ack() | TcpFlags::syn());
}

#[test]
fn contains_is_subset_not_equality() {
    let syn_ack = TcpFlags::syn() | TcpFlags::ack();
    assert!(syn_ack.contains(TcpFlags::syn()));
    assert!(syn_ack.contains(TcpFlags::ack()));
    assert!(syn_ack.contains(syn_ack));
    assert!(syn_ack.contains(TcpFlags::empty()));
    assert!(!syn_ack.contains(TcpFlags::fin()));
    assert!(!syn_ack.contains(TcpFlags::syn() | TcpFlags::fin()));
    assert!(!TcpFlags::syn().contains(syn_ack));
    assert_ne!(syn_ack, TcpFlags::syn());
}

#[test]
fn or_assign_and_insert_add_flags() {
    let mut flags = TcpFlags::ack();
    flags |= TcpFlags::fin();
    assert_eq!(flags.bits(), 0x11);
    flags.insert(TcpFlags::psh());
    assert_eq!(flags.bits(), 0x19);
    flags.insert(TcpFlags::psh());
    assert_eq!(flags.bits(), 0x19);
}

#[test]
fn remove_and_difference_clear_flags() {
    let mut flags = TcpFlags::from_bits(0x1b);
    flags.remove(TcpFlags::syn() | TcpFlags::urg());
    assert_eq!(flags.bits(), 0x19);
    assert_eq!(flags.difference(TcpFlags::ack()).bits(), 0x09);
    assert_eq!(flags.difference(TcpFlags::rst()), flags);
}

#[test]
fn every_octet_is_a_flag_set() {
    let all = TcpFlags::from_bits(0xff);
    assert_eq!(all.bits(), 0xff);
    assert!(all.contains(TcpFlags::urg() | TcpFlags::fin()));
}
