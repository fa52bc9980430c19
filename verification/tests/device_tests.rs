use rkernel::ata;
use rkernel::fpu::{cr0_value, cr4_value};
use rkernel::mouse::State;
use rkernel::pic::Chained;
use rkernel::port::PortWrite;
use rkernel::pspeaker;
use rkernel::rtc::{self, bcd_to_binary, RtcRegisters};
use rkernel::sb16;
use rkernel::serial::{can_transmit, has_data, SerialPort};

fn w(port: u16, value: u8) -> PortWrite {
    PortWrite { port, value }
}

#[test]
fn pic_pair_serves_sixteen_vectors() {
    let pics = Chained::new(32, 40);
    assert!(!pics.handle(31));
    assert!(pics.handle(32));
    assert!(pics.handle(39));
    assert!(pics.handle(40));
    assert!(pics.handle(47));
    assert!(!pics.handle(48));
}

#[test]
fn pic_end_of_interrupt() {
    let pics = Chained::new(32, 40);
    assert_eq!(pics.end(33), vec![w(0x20, 0x20)]);
    assert_eq!(pics.end(44), vec![w(0xA0, 0x20), w(0x20, 0x20)]);
    assert_eq!(pics.end(50), vec![]);
    assert_eq!(pics.end(0), vec![]);
}

#[test]
fn pic_init_sequence_restores_masks() {
    let pics = Chained::new(32, 40);
    assert_eq!(pics.mask_ports(), (0x21, 0xA1));
    let ws = pics.init(0xAB, 0xCD);
    let wait = w(0x80, 0);
    assert_eq!(
        ws,
        vec![
            w(0x20, 0x11), wait, w(0xA0, 0x11), wait,
            w(0x21, 32), wait, w(0xA1, 40), wait,
            w(0x21, 4), wait, w(0xA1, 2), wait,
            w(0x21, 1), wait, w(0xA1, 1), wait,
            w(0x21, 0xAB), w(0xA1, 0xCD),
        ]
    );
}

#[test]
fn mouse_state_is_pinned_to_screen() {
    let mut s = State::new();
    assert_eq!(s.position(), (0, 0));
    assert_eq!(s.on_complete(10, 5), (10, 0));
    assert_eq!(s.on_complete(5, -30), (15, 30));
    assert_eq!(s.on_complete(700, -600), (640, 480));
    assert_eq!(s.on_complete(-1000, 1000), (0, 0));
    assert_eq!(s.position(), (0, 0));
}

#[test]
fn mouse_moves_cancel() {
    let mut s = State::new();
    s.on_complete(100, -200);
    s.on_complete(33, 44);
    assert_eq!(s.position(), (133, 156));
    s.on_complete(-33, -44);
    assert_eq!(s.position(), (100, 200));
    s.on_complete(0, 0);
    assert_eq!(s.position(), (100, 200));
}

#[test]
fn bcd_values() {
    assert_eq!(bcd_to_binary(0x00), 0);
    assert_eq!(bcd_to_binary(0x09), 9);
    assert_eq!(bcd_to_binary(0x10), 10);
    assert_eq!(bcd_to_binary(0x59), 59);
    assert_eq!(bcd_to_binary(0x99), 99);
    assert_eq!(bcd_to_binary(0xFF), 165);
}

#[test]
fn bcd_round_trip() {
    for n in 0u8..100 {
        assert_eq!(bcd_to_binary((n / 10) * 16 + n % 10), n);
    }
}

#[test]
fn rtc_time_decodes_registers() {
    let t = rtc::time(RtcRegisters { seconds: 0x07, minutes: 0x45, hours: 0x05, day: 0x31, month: 0x12, year: 0x24 });
    assert_eq!((t.year, t.month, t.day, t.hour, t.minute, t.second), (2024, 12, 31, 17, 45, 7));
    let t = rtc::time(RtcRegisters { seconds: 0, minutes: 0, hours: 0x85, day: 1, month: 1, year: 0 });
    assert_eq!((t.year, t.hour), (2000, 85));
    assert!(rtc::is_updating(0x00));
    assert!(rtc::is_updating(0x7F));
    assert!(!rtc::is_updating(0x80));
}

#[test]
fn ata_drive_select() {
    assert_eq!(ata::drive_select(0), 0xA0);
    assert_eq!(ata::drive_select(1), 0xB0);
    assert_eq!(ata::drive_select(0x11), 0xB0);
    assert_eq!(ata::drive_select(0x0F), 0xF0);
}

#[test]
fn ata_read_commands() {
    assert_eq!(
        ata::read_commands(0x1234_5678, 3),
        vec![w(0x1F6, 0xE2), w(0x1F2, 3), w(0x1F3, 0x78), w(0x1F4, 0x56), w(0x1F5, 0x34), w(0x1F7, 0x20)]
    );
    assert_eq!(ata::read_commands(0xFFFF_FFFF, 0)[0], w(0x1F6, 0xEF));
}

#[test]
fn ata_store_sector_low_byte_first() {
    let words: Vec<u16> = (0..256u16).map(|i| i.wrapping_mul(0x0101) ^ 0xA55A).collect();
    let mut buf = vec![0xEEu8; 600];
    ata::store_sector(&mut buf, &words);
    for j in 0..256 {
        assert_eq!(buf[2 * j] as u16 | (buf[2 * j + 1] as u16) << 8, words[j]);
    }
    assert_eq!(buf[0], 0x5A);
    assert_eq!(buf[1], 0xA5);
    assert!(buf[512..].iter().all(|&b| b == 0xEE));
}

fn identify_words(model: &[u8; 40]) -> Vec<u16> {
    let mut words = vec![0u16; 256];
    for i in 0..20 {
        words[27 + i] = (model[2 * i] as u16) << 8 | model[2 * i + 1] as u16;
    }
    words
}

#[test]
fn ata_identify_model_and_capacity() {
    let mut model = [b' '; 40];
    model[..13].copy_from_slice(b"QEMU HARDDISK");
    let mut words = identify_words(&model);
    assert_eq!(ata::identify_model(&words), b"QEMU HARDDISK".to_vec());
    words[60] = 0x0000;
    words[61] = 0x0002;
    assert_eq!(ata::identify_capacity(&words), 0x2_0000 * 512);
    words[60] = 1000;
    words[61] = 0;
    assert_eq!(ata::identify_capacity(&words), 512_000);
}

#[test]
fn ata_identify_model_trims_both_ends() {
    let mut model = [b' '; 40];
    model[3..6].copy_from_slice(b"abc");
    model[10] = b'\t';
    model[11] = b'd';
    assert_eq!(ata::identify_model(&identify_words(&model)), b"abc    \td".to_vec());
    let blank = [b' '; 40];
    assert_eq!(ata::identify_model(&identify_words(&blank)), Vec::<u8>::new());
}

#[test]
fn ata_status_tests() {
    assert!(ata::identify_ready(0x40));
    assert!(ata::identify_ready(0x58));
    assert!(!ata::identify_ready(0x08));
    assert!(ata::still_busy(0x7F));
    assert!(!ata::still_busy(0x80));
    assert!(ata::data_pending(0x40));
    assert!(!ata::data_pending(0x08));
}

fn run_probe(readings: &[u8]) -> (Vec<u16>, bool) {
    let mut probe = ata::IdentifyProbe::new();
    let mut ports = Vec::new();
    let mut data = false;
    let mut it = readings.iter();
    while let Some(port) = probe.port() {
        ports.push(port);
        let r = *it.next().unwrap_or(&0);
        if probe.step(r) {
            data = true;
        }
    }
    (ports, data)
}

#[test]
fn ata_identify_probe() {
    assert_eq!(
        ata::identify_commands(1),
        vec![w(0x1F6, 0xB0), w(0x1F7, 0xEC)]
    );
    // no drive: the status reads zero
    assert_eq!(run_probe(&[0]), (vec![0x1F7], false));
    // low address register zero: polling straight away; data on the second poll
    assert_eq!(run_probe(&[0x50, 0, 0x10, 0x58]), (vec![0x1F7, 0x1F3, 0x1F7, 0x1F7], true));
    // low non-zero, middle zero: polling
    assert_eq!(run_probe(&[0x50, 0x14, 0, 0x40]), (vec![0x1F7, 0x1F3, 0x1F4, 0x1F7], true));
    // both non-zero: not an ATA drive
    assert_eq!(run_probe(&[0x50, 0x14, 0xEB]), (vec![0x1F7, 0x1F3, 0x1F4], false));
    // never ready: 256 polls, then give up
    let (ports, data) = run_probe(&[0x50, 0]);
    assert_eq!(ports.len(), 2 + 256);
    assert!(!data);
}

#[test]
fn sb16_command_bytes() {
    assert_eq!(sb16::version_request(), w(0x22C, 0xE1));
    assert_eq!(sb16::set_sample_rate(22050), vec![0x41, 0x56, 0x22]);
    assert_eq!(sb16::set_sample_rate(44100), vec![0x41, 0xAC, 0x44]);
    assert_eq!(sb16::init_commands(), vec![0x41, 0x56, 0x22, 0xB0, 0x10, 0xFF, 0xFF, 0xD1, 0xD6]);
    assert_eq!(sb16::mixer_commands(), vec![w(0x224, 0x80), w(0x225, 0x02)]);
    assert_eq!(sb16::reset_commands(), vec![w(0x22A, 1), w(0x22A, 0)]);
    assert!(sb16::reset_succeeded(0xAA));
    assert!(!sb16::reset_succeeded(0xFF));
    assert!(sb16::write_busy(0x80));
    assert!(!sb16::write_busy(0x7F));
    assert!(sb16::read_pending(0x00));
    assert!(!sb16::read_pending(0x80));
}

#[test]
fn sb16_transfer_programs_dma() {
    assert_eq!(
        sb16::transfer(0x12345, 882),
        vec![
            w(0xD4, 5), w(0xD8, 1), w(0xD6, 0x59),
            w(0xC4, 0xA2), w(0xC4, 0x91),
            w(0xC6, 0x71), w(0xC6, 0x03),
            w(0x8B, 0x01),
            w(0xD4, 1),
        ]
    );
}

#[test]
fn serial_port_setup() {
    let p = SerialPort::new(0x3F8);
    assert_eq!(
        p.init_commands(),
        vec![
            w(0x3F9, 0x00), w(0x3FB, 0x80), w(0x3F8, 0x01), w(0x3F9, 0x00),
            w(0x3FB, 0x03), w(0x3FA, 0xC7), w(0x3FC, 0x0B), w(0x3F9, 0x01),
        ]
    );
    assert_eq!(p.data_port(), 0x3F8);
    assert_eq!(p.line_status_port(), 0x3FD);
    assert!(can_transmit(0x20));
    assert!(can_transmit(0x60));
    assert!(!can_transmit(0x1F));
    assert!(has_data(0x01));
    assert!(!has_data(0x60));
}

#[test]
fn speaker_beep() {
    assert_eq!(pspeaker::beep(1000), vec![w(0x43, 0xB6), w(0x42, 0xA9), w(0x42, 0x04)]);
    assert_eq!(pspeaker::beep(1), vec![w(0x43, 0xB6), w(0x42, 0xDC), w(0x42, 0x34)]);
    assert_eq!(pspeaker::speaker_on(0x00), Some(0x03));
    assert_eq!(pspeaker::speaker_on(0x21), Some(0x23));
    assert_eq!(pspeaker::speaker_on(0x03), None);
    assert_eq!(pspeaker::speaker_on(0xFF), None);
    assert_eq!(pspeaker::speaker_off(0xFF), 0xFC);
    assert_eq!(pspeaker::speaker_off(0x03), 0x00);
}

#[test]
fn fpu_control_registers() {
    assert_eq!(cr0_value(0x8000_0015), 0x8000_0013);
    assert_eq!(cr0_value(0), 2);
    assert_eq!(cr4_value(0), 0x600);
    assert_eq!(cr4_value(0x20), 0x620);
}
