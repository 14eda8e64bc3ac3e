use usbd::Action;
use usbd::device::Usbd;
use usbd::ep0::Ep0State;

/// Runs a control read of `len` bytes through the chunking machine and
/// collects the (offset, count, status_after) of every packet sent.
fn run_transfer(len: usize) -> Vec<(u16, u8, bool)> {
    let mut dev = Usbd::new();
    let data: Vec<u8> = (0..len).map(|i| i as u8).collect();
    let mut packets = Vec::new();
    let mut action = dev.start_epin0(data);
    loop {
        match action {
            Action::StartEpIn0 { offset, count, status_after } => {
                packets.push((offset, count, status_after));
            }
            other => panic!("unexpected action {:?}", other),
        }
        // the host acknowledges the packet: data-sent completion
        match dev.ep0_state() {
            Ep0State::Write { leftover } if leftover != 0 => {
                action = dev.continue_epin0();
            }
            Ep0State::Write { .. } => {
                // final packet in flight; completion returns the machine to
                // idle with no further send (the shortcut issues the status
                // stage)
                break;
            }
            Ep0State::Idle => unreachable!("transfer still in flight"),
        }
    }
    packets
}

#[test]
fn transfer_of_150_bytes_is_three_packets() {
    // ceil(150 / 64) = 3 packets: 64, 64, then 150 mod 64 = 22
    let packets = run_transfer(150);
    assert_eq!(
        packets,
        vec![(0u16, 64u8, false), (64, 64, false), (128, 22, true)]
    );
}

#[test]
fn transfer_of_130_bytes() {
    let packets = run_transfer(130);
    assert_eq!(packets, vec![(0u16, 64u8, false), (64, 64, false), (128, 2, true)]);
}

#[test]
fn evenly_divisible_transfer_ends_with_full_packet() {
    // 128 = 2 * 64: the last packet is a full 64 bytes (short-packet rule)
    let packets = run_transfer(128);
    assert_eq!(packets, vec![(0u16, 64u8, false), (64, 64, true)]);
}

#[test]
fn transfer_that_fits_is_one_packet_with_status() {
    let packets = run_transfer(64);
    assert_eq!(packets, vec![(0u16, 64u8, true)]);
    let packets = run_transfer(18);
    assert_eq!(packets, vec![(0u16, 18u8, true)]);
}

#[test]
fn empty_transfer_is_one_empty_packet() {
    let packets = run_transfer(0);
    assert_eq!(packets, vec![(0u16, 0u8, true)]);
}

#[test]
fn transfer_of_65_bytes() {
    let packets = run_transfer(65);
    assert_eq!(packets, vec![(0u16, 64u8, false), (64, 1, true)]);
}

#[test]
fn machine_returns_to_idle_after_final_completion() {
    let mut dev = Usbd::new();
    let data: Vec<u8> = vec![0; 100];
    dev.start_epin0(data);
    assert_eq!(dev.ep0_state(), Ep0State::Write { leftover: 36 });
    dev.continue_epin0();
    assert_eq!(dev.ep0_state(), Ep0State::Write { leftover: 0 });
}
