//! The machines, played against a board and a clock that are made up here.

use std::collections::VecDeque;

use siwx917::codec::{build_packet, quote, unquote, SOH};
use siwx917::error::FlashError;
use siwx917::event::{FlashEvent, FlashMilestone, FlashPhase};
use siwx917::exchange::{send_and_wait_ack, Note, SendAndWaitAck};
use siwx917::host::{
    elapsed_since, Fault, FaultKind, Moment, Reply, Request, Turn, MILLISECOND, SECOND,
};
use siwx917::image::{ImageKind, RPS_HEADER_SIZE, RPS_MAGIC};
use siwx917::job::{FlashJob, FlashMode};
use siwx917::listen::{drain, read_until, ReadUntil};
use siwx917::menu::{enter_isp_menu, EnterIspMenu};
use siwx917::plugin::{burn, RunFlash, Siwx917Plugin};
use siwx917::receive::{read_byte, read_packet, ByteRead, ReadPacket};
use siwx917::recognise::{looks_like_isp_menu, Accept};
use siwx917::report::{confirm_upgrade, ConfirmUpgrade};
use siwx917::transfer::{send_file, send_init_fields, take_chunk, SendFile, MAX_ENCODED};

/// What a real board with bootloader version 1.1 prints.
const REAL_MENU: &str = "U\r\nWELCOME TO SILICON LABS\r\nBootLoader Version 1.1\r\n\r\n\
1 Load Default Wireless Firmware\r\nA Load Wireless Firmware (Image No : 0-f)\r\n\
B Burn Wireless Firmware (Image No : 0-f)\r\n5 Select Default Wireless Firmware (Image No : 0-f)\r\n\
K Check Wireless Firmware Integrity (Image No : 0-f)\r\n2 Load Default M4 Firmware\r\n\
3 Load M4 Firmware (Image No : 1-f)\r\n4 Burn M4 Firmware (Image No : 1-f)\r\n\
6 Select Default M4 Firmware (Image No : 1-f)\r\n9 Check M4 Firmware Integrity (Image No : 1-f)\r\n\
F Select M4 and Wireless Images Pair \r\n7 Enable GPIO Based Bypass Mode\r\n\
8 Disable GPIO Based Bypass Mode\r\nQ Update KEY\r\nZ JTAG Selection\r\n\
l Lock/Unlock Debug Interfaces\r\ns Continue Debug Interfaces change\r\no Send OPN\r\n\
b Change UART Baud Rate\r\n";

/// What a real board prints after a wireless burn.
const REAL_SUCCESS_REPORT: &str =
    "\r\nSafe Upgrade in Progress ...\r\n\r\nUpgradation Successful\r\n\r\nEnter Next Command\r\n";

/// A host whose clock moves only as it is used.
struct Host {
    now: u64,
    cancelled: bool,
    /// What comes in, each with the time from which it can be read.
    inbound: VecDeque<(u64, Vec<u8>)>,
    /// Every writing.
    written: Vec<Vec<u8>>,
    /// Which writings fail, by their number.
    broken_writes: Vec<usize>,
    /// A failure of every read that finds nothing.
    read_fault: FaultKind,
    events: Vec<FlashEvent>,
    slept: u64,
    /// Answers to writings: what comes in once those bytes have been written.
    answers: Vec<(Vec<u8>, Vec<u8>)>,
    /// Acknowledges every packet that is written.
    obliging: bool,
    /// What comes in once the last packet is acknowledged.
    last_words: Vec<u8>,
    file: Result<Vec<u8>, String>,
    port_fault: Option<String>,
    opened: Vec<(String, u32, u64)>,
    loaded: Vec<String>,
}

fn host() -> Host {
    Host {
        now: 1_000 * SECOND,
        cancelled: false,
        inbound: VecDeque::new(),
        written: Vec::new(),
        broken_writes: Vec::new(),
        read_fault: FaultKind::TimedOut,
        events: Vec::new(),
        slept: 0,
        answers: Vec::new(),
        obliging: false,
        last_words: Vec::new(),
        file: Err("no such file".to_string()),
        port_fault: None,
        opened: Vec::new(),
        loaded: Vec::new(),
    }
}

impl Host {
    fn moment(&self) -> Moment {
        Moment {
            now: self.now,
            cancelled: self.cancelled,
        }
    }

    fn feed(&mut self, after: u64, bytes: &[u8]) {
        self.inbound.push_back((self.now + after, bytes.to_vec()));
    }

    fn read(&mut self, limit: usize) -> Reply {
        self.now += 10_000;
        let ready = self.inbound.front().is_some_and(|(at, _)| self.now >= *at);
        if !ready {
            self.now += MILLISECOND;
            return fault(self.read_fault, "nothing available yet");
        }
        let chunk = &mut self.inbound.front_mut().expect("checked above").1;
        let n = chunk.len().min(limit);
        let bytes: Vec<u8> = chunk.drain(..n).collect();
        if chunk.is_empty() {
            self.inbound.pop_front();
        }
        Reply::Bytes(bytes)
    }

    fn write(&mut self, bytes: Vec<u8>) -> Reply {
        let number = self.written.len();
        self.written.push(bytes.clone());
        if self.broken_writes.contains(&number) {
            return fault(FaultKind::Other, "broken pipe");
        }
        if let Some((_, answer)) = self.answers.iter().find(|(to, _)| *to == bytes) {
            let answer = answer.clone();
            self.feed(0, &answer);
        }
        if self.obliging && bytes[0] == SOH {
            self.feed(0, &build_packet(bytes[2] - 32, b'Y', &[]));
            if bytes[3] == b'B' {
                let words = self.last_words.clone();
                self.feed(300 * MILLISECOND, &words);
            }
        }
        Reply::Bytes(Vec::new())
    }

    fn reply(&mut self, request: Request) -> Reply {
        match request {
            Request::Read { limit } => self.read(limit),
            Request::Write { bytes } => self.write(bytes),
            Request::Sleep { nanos } => {
                self.now += nanos;
                self.slept += nanos;
                Reply::Bytes(Vec::new())
            }
            Request::Report { event } => {
                self.events.push(event);
                Reply::Bytes(Vec::new())
            }
            Request::LoadFile { path } => {
                self.loaded.push(path);
                match &self.file {
                    Ok(data) => Reply::Bytes(data.clone()),
                    Err(why) => fault(FaultKind::Other, why),
                }
            }
            Request::OpenPort {
                name,
                baud,
                timeout,
            } => {
                self.opened.push((name, baud, timeout));
                match &self.port_fault {
                    Some(why) => fault(FaultKind::Other, why),
                    None => Reply::Bytes(Vec::new()),
                }
            }
        }
    }

    fn play<M, T>(
        &mut self,
        first: Turn<M, T>,
        step: fn(M, Reply, Moment) -> Turn<M, T>,
    ) -> Result<T, FlashError> {
        let mut turn = first;
        loop {
            match turn {
                Turn::Ask(machine, request) => {
                    let reply = self.reply(request);
                    turn = step(machine, reply, self.moment());
                }
                Turn::Done(t) => return Ok(t),
                Turn::Failed(e) => return Err(e),
            }
        }
    }

    fn read_until(&mut self, overall: u64, idle: u64, accept: Accept) -> Vec<u8> {
        let first = read_until(overall, idle, accept, self.now);
        self.play(first, ReadUntil::step).expect("a wait never fails")
    }

    fn read_packet(&mut self, timeout: u64) -> Result<(u8, u8, Vec<u8>), FlashError> {
        let first = read_packet(self.now, timeout, self.now);
        self.play(first, ReadPacket::step)
            .map(|p| (p.seq, p.ptype, p.data))
    }

    fn send_and_wait_ack(&mut self, seq: u8, ptype: u8, data: &[u8]) -> Result<Vec<u8>, FlashError> {
        let first = send_and_wait_ack(seq, ptype, data, self.moment());
        self.play(first, SendAndWaitAck::step)
    }

    fn send_file(&mut self, name: &str, data: &[u8]) -> Result<(), FlashError> {
        let first = send_file(name, data, self.moment());
        self.play(first, SendFile::step).map(|_| ())
    }

    fn enter_isp_menu(&mut self, kind: ImageKind) -> Result<(), FlashError> {
        let first = enter_isp_menu(kind, self.moment());
        self.play(first, EnterIspMenu::step).map(|_| ())
    }

    fn confirm_upgrade(&mut self) -> Result<(), FlashError> {
        let first = confirm_upgrade(self.moment());
        self.play(first, ConfirmUpgrade::step).map(|_| ())
    }

    fn run(&mut self, job: &FlashJob) -> Result<(), FlashError> {
        self.play(Siwx917Plugin.run(job), RunFlash::step).map(|_| ())
    }

    fn outbound(&self) -> Vec<u8> {
        self.written.concat()
    }
}

fn fault(kind: FaultKind, message: &str) -> Reply {
    Reply::Failed(Fault {
        kind,
        message: message.to_string(),
    })
}

/// A board that is in its bootloader and answers as a real one does.
fn board() -> Host {
    let mut h = host();
    h.answers = vec![
        (vec![0x1c], b"\r\nEnter 'U'".to_vec()),
        (b"U".to_vec(), REAL_MENU.as_bytes().to_vec()),
        (b"4".to_vec(), b"Enter M4 Image No(1-f)".to_vec()),
        (b"B".to_vec(), b"Enter Wireless Image No(0-f)".to_vec()),
        (b"1".to_vec(), b"Send RPS file".to_vec()),
        (b"0".to_vec(), b"Send RPS file".to_vec()),
    ];
    h.obliging = true;
    h.last_words = REAL_SUCCESS_REPORT.as_bytes().to_vec();
    h
}

/// Everything readable at once.
fn feeder(chunks: Vec<Vec<u8>>) -> Host {
    let mut h = host();
    for c in chunks {
        h.feed(0, &c);
    }
    h
}

/// A stray CR available at once (the Break ACK's leftover EOL), then the device's real
/// report only after the drain window has closed.
fn feeder_post_burn(report: &str) -> Host {
    let mut h = host();
    h.feed(0, b"\r");
    h.feed(300 * MILLISECOND, report.as_bytes());
    h
}

fn has_milestone(events: &[FlashEvent], which: FlashMilestone) -> bool {
    events
        .iter()
        .any(|e| matches!(e, FlashEvent::Milestone { milestone } if *milestone == which))
}

// Waits.

#[test]
fn read_until_returns_as_soon_as_accept_matches() {
    // A 60 s window that must not actually be waited out.
    let mut f = feeder(vec![REAL_MENU.as_bytes().to_vec()]);
    let started = f.now;
    let got = f.read_until(60 * SECOND, 30 * SECOND, Accept::Menu);
    assert!(looks_like_isp_menu(&got));
    assert!(
        f.now - started < SECOND,
        "should return on the accept predicate, not the deadline"
    );
}

#[test]
fn read_until_settles_after_an_idle_gap_once_data_arrived() {
    let mut f = feeder(vec![b"partial".to_vec()]);
    let started = f.now;
    // Never accepts: the idle rule is what must end this.
    let got = f.read_until(60 * SECOND, 50 * MILLISECOND, Accept::Never);
    assert_eq!(got, b"partial");
    assert!(
        f.now - started < SECOND,
        "should settle on the idle gap, not the deadline"
    );
}

#[test]
fn read_until_honours_the_deadline_when_nothing_ever_arrives() {
    let mut f = feeder(vec![]);
    let started = f.now;
    let got = f.read_until(120 * MILLISECOND, 10 * MILLISECOND, Accept::Never);
    assert!(got.is_empty());
    // The idle rule must not fire before any data has been seen, so this waits it out.
    assert!(f.now - started >= 120 * MILLISECOND);
}

#[test]
fn read_until_accumulates_across_multiple_reads() {
    let mut f = feeder(vec![b"BootLoader ".to_vec(), b"Burn M4 Firmware ".to_vec()]);
    let got = f.read_until(5 * SECOND, 30 * MILLISECOND, Accept::Never);
    assert_eq!(got, b"BootLoader Burn M4 Firmware ");
}

#[test]
fn the_idle_time_runs_from_the_last_read_that_brought_something() {
    let mut f = host();
    for k in 0..5 {
        f.feed(k * 40 * MILLISECOND, b"x");
    }
    let started = f.now;
    let got = f.read_until(SECOND, 50 * MILLISECOND, Accept::Never);
    assert_eq!(got, b"xxxxx");
    assert!(f.now - started >= 210 * MILLISECOND && f.now - started < 250 * MILLISECOND);
}

#[test]
fn a_wait_pauses_whenever_nothing_comes_whatever_the_fault() {
    let mut f = host();
    f.read_fault = FaultKind::Other;
    f.feed(20 * MILLISECOND, b"late");
    let got = f.read_until(SECOND, 50 * MILLISECOND, Accept::Never);
    assert_eq!(got, b"late");
    assert!(f.slept > 0 && f.slept % (5 * MILLISECOND) == 0);
}

#[test]
fn a_wait_treats_an_empty_read_as_nothing() {
    let mut f = feeder(vec![Vec::new()]);
    f.feed(0, b"x");
    assert_eq!(f.read_until(SECOND, SECOND, Accept::Never), b"x");
    assert!(f.slept > 0);
}

#[test]
fn a_wait_of_no_time_reads_nothing() {
    let mut f = feeder(vec![b"x".to_vec()]);
    assert_eq!(f.read_until(0, 0, Accept::Never), b"");
    assert!(f.written.is_empty());
}

#[test]
fn a_wait_asks_for_small_reads() {
    let Turn::Ask(_, Request::Read { limit }) = read_until(SECOND, SECOND, Accept::Never, 7) else {
        panic!("no read");
    };
    assert_eq!(limit, 256);
}

#[test]
fn drain_drops_what_is_buffered() {
    let mut f = feeder(vec![b"stale".to_vec()]);
    f.feed(200 * MILLISECOND, b"fresh");
    let first = drain(50 * MILLISECOND, f.now);
    assert_eq!(f.play(first, ReadUntil::step).unwrap(), b"stale");
    assert_eq!(
        f.read_until(SECOND, 10 * MILLISECOND, Accept::Never),
        b"fresh"
    );
}

#[test]
fn time_does_not_run_backwards() {
    assert_eq!(elapsed_since(3, 10), 7);
    assert_eq!(elapsed_since(10, 3), 0);
}

// Packets.

#[test]
fn build_and_read_packet_roundtrip() {
    let pkt = build_packet(5, b'D', &quote(b"hello\x01"));
    let mut lp = feeder(vec![pkt]);
    let (seq, ptype, data) = lp.read_packet(SECOND).unwrap();
    assert_eq!(seq, 5);
    assert_eq!(ptype, b'D');
    assert_eq!(unquote(&data), b"hello\x01");
}

#[test]
fn read_packet_rejects_bad_checksum() {
    let mut pkt = build_packet(0, b'Y', &[]);
    // Corrupt the checksum byte (second-to-last, before EOL).
    let n = pkt.len();
    pkt[n - 2] ^= 0xff;
    let mut once = feeder(vec![pkt]);
    let res = once.read_packet(SECOND);
    assert!(matches!(res, Err(FlashError::Plugin(msg)) if msg.contains("checksum")));
}

#[test]
fn read_packet_drops_what_comes_before_the_mark_and_leaves_what_comes_after() {
    let mut bytes = b"noise\r".to_vec();
    bytes.extend(build_packet(9, b'N', b"why"));
    bytes.extend(b"rest");
    let mut f = feeder(vec![bytes]);
    assert_eq!(f.read_packet(SECOND).unwrap(), (9, b'N', b"why".to_vec()));
    // The end-of-packet character is not read with the packet.
    assert_eq!(
        f.read_until(SECOND, 10 * MILLISECOND, Accept::Never),
        b"\rrest"
    );
}

#[test]
fn read_packet_says_exactly_what_is_wrong() {
    let mut f = feeder(vec![vec![SOH, 34]]);
    let Err(FlashError::Plugin(m)) = f.read_packet(SECOND) else {
        panic!("read");
    };
    assert_eq!(m, "SIWX917: Kermit packet shorter than SEQ+TYPE+CHECK");

    let mut f = feeder(vec![vec![SOH, b'#', b' ', b'Y', b'?']]);
    let Err(FlashError::Plugin(m)) = f.read_packet(SECOND) else {
        panic!("read");
    };
    assert_eq!(m, "SIWX917: Kermit checksum mismatch");

    let mut f = feeder(vec![vec![SOH, b'#', b' ']]);
    let Err(FlashError::Plugin(m)) = f.read_packet(SECOND) else {
        panic!("read");
    };
    assert_eq!(m, "SIWX917: Kermit read timeout");

    let mut f = host();
    f.read_fault = FaultKind::Other;
    let Err(FlashError::Io(m)) = f.read_packet(SECOND) else {
        panic!("read");
    };
    assert_eq!(m, "nothing available yet");
}

#[test]
fn a_byte_is_awaited_over_timeouts_and_blocking() {
    assert!(matches!(
        read_byte(fault(FaultKind::TimedOut, "")),
        ByteRead::Again
    ));
    assert!(matches!(
        read_byte(fault(FaultKind::WouldBlock, "")),
        ByteRead::Again
    ));
    assert!(matches!(
        read_byte(fault(FaultKind::Other, "gone")),
        ByteRead::Failed(FlashError::Io(m)) if m == "gone"
    ));
    assert!(matches!(read_byte(Reply::Bytes(vec![7])), ByteRead::Byte(7)));
    assert!(matches!(
        read_byte(Reply::Bytes(Vec::new())),
        ByteRead::Again
    ));
    let mut f = host();
    f.read_fault = FaultKind::WouldBlock;
    f.feed(50 * MILLISECOND, &build_packet(1, b'Y', &[]));
    assert!(f.read_packet(SECOND).is_ok());
}

// Exchanges.

#[test]
fn send_and_wait_ack_accepts_matching_ack_and_writes_framed_packet() {
    let ack_pkt = build_packet(0, b'Y', &quote(b"ack-data"));
    let mut port = feeder(vec![ack_pkt]);
    let data = port
        .send_and_wait_ack(0, b'S', &send_init_fields())
        .unwrap();
    assert_eq!(data, b"ack-data");
    assert_eq!(port.outbound()[0], SOH);
    assert_eq!(port.outbound()[3], b'S'); // SOH, LEN, SEQ, TYPE
}

#[test]
fn send_and_wait_ack_retransmits_on_nak_then_succeeds() {
    let nak = build_packet(0, b'N', &[]);
    let ack = build_packet(0, b'Y', &[]);
    let mut port = feeder(vec![nak, ack]);
    let res = port.send_and_wait_ack(0, b'F', &[]);
    assert!(res.is_ok());
    // Packet was written twice: once before the NAK, once after.
    let pkt = build_packet(0, b'F', &[]);
    assert_eq!(port.outbound().len(), pkt.len() * 2);
}

#[test]
fn send_and_wait_ack_respects_cancellation() {
    let mut port = host();
    port.cancelled = true;
    let res = port.send_and_wait_ack(0, b'S', &[]);
    assert!(matches!(res, Err(FlashError::Cancelled)));
    assert!(port.written.is_empty());
}

#[test]
fn send_and_wait_ack_ignores_answers_to_other_packets() {
    let mut port = feeder(vec![
        build_packet(6, b'Y', b"old"),
        build_packet(7, b'E', b"odd"),
        build_packet(6, b'N', &[]),
        build_packet(7, b'Y', b"mine"),
    ]);
    assert_eq!(port.send_and_wait_ack(7, b'D', b"x").unwrap(), b"mine");
    assert_eq!(port.written.len(), 1);
}

#[test]
fn send_and_wait_ack_sends_twenty_times_and_gives_up() {
    let mut port = host();
    let started = port.now;
    let Err(FlashError::Plugin(m)) = port.send_and_wait_ack(3, b'D', b"x") else {
        panic!("acknowledged");
    };
    assert_eq!(
        m,
        "SIWX917: no ACK for Kermit packet type 'D' after 20 retries"
    );
    assert_eq!(port.written, vec![build_packet(3, b'D', b"x"); 20]);
    // Each sending is given five seconds.
    assert!(port.now - started >= 100 * SECOND);
    assert!(port.now - started < 101 * SECOND);
}

#[test]
fn send_and_wait_ack_tries_again_after_a_broken_answer_but_not_a_broken_write() {
    let mut bad = build_packet(0, b'Y', &[]);
    bad[4] ^= 0x01;
    let mut port = feeder(vec![bad, build_packet(0, b'Y', &[])]);
    assert!(port.send_and_wait_ack(0, b'S', &[]).is_ok());
    assert_eq!(port.written.len(), 2);

    let mut port = host();
    port.broken_writes = vec![0];
    let Err(FlashError::Io(m)) = port.send_and_wait_ack(0, b'S', &[]) else {
        panic!("acknowledged");
    };
    assert_eq!(m, "broken pipe");
    assert_eq!(port.written.len(), 1);
}

// Transfers.

#[test]
fn send_file_drives_full_state_machine_over_mock_transport() {
    // Program replies for S, F, D(one chunk fits in one packet for a short payload), Z, B.
    let mut port = host();
    for seq in 0..5u8 {
        port.feed(0, &build_packet(seq, b'Y', &[]));
    }
    let res = port.send_file("fw.rps", b"hello world");
    assert!(res.is_ok(), "{res:?}");
    assert!(!port.events.is_empty());
}

#[test]
fn send_file_writes_exactly_the_packets_of_the_file() {
    let mut port = host();
    port.obliging = true;
    port.send_file("fw#1.rps", b"hello\x00world").unwrap();
    assert_eq!(
        port.written,
        vec![
            build_packet(0, b'S', &send_init_fields()),
            build_packet(1, b'F', b"fw#c1.rps"),
            build_packet(2, b'D', b"hello#@world"),
            build_packet(3, b'Z', &[]),
            build_packet(4, b'B', &[]),
        ]
    );
    assert!(matches!(port.events[..], [FlashEvent::Percent { value: 100 }]));
}

#[test]
fn send_file_of_nothing_sends_no_data_and_no_progress() {
    let mut port = host();
    port.obliging = true;
    port.send_file("empty", b"").unwrap();
    let types: Vec<u8> = port.written.iter().map(|p| p[3]).collect();
    assert_eq!(types, b"SFZB");
    assert!(port.events.is_empty());
}

#[test]
fn a_receiver_of_a_long_file_has_it_whole() {
    let data: Vec<u8> = (0..20_000u32).map(|i| (i * 7 % 256) as u8).collect();
    let mut port = host();
    port.obliging = true;
    port.send_file("long.rps", &data).unwrap();
    let mut back: Vec<u8> = Vec::new();
    for (k, bytes) in port.written.iter().enumerate() {
        let mut f = feeder(vec![bytes.clone()]);
        let (seq, ptype, body) = f.read_packet(SECOND).unwrap();
        assert_eq!(seq as usize, k % 64);
        assert!(bytes.len() <= 97);
        if ptype == b'D' {
            back.extend(unquote(&body));
        }
    }
    assert_eq!(back, data);
    // Progress never falls and ends at a hundred.
    let mut last = 0;
    for e in &port.events {
        let FlashEvent::Percent { value } = e else {
            panic!("not progress");
        };
        assert!(*value >= last && *value <= 100);
        last = *value;
    }
    assert_eq!(last, 100);
}

#[test]
fn progress_is_what_has_been_acknowledged() {
    let data = vec![b'A'; 300];
    let mut port = host();
    port.obliging = true;
    port.send_file("a", &data).unwrap();
    let values: Vec<u8> = port
        .events
        .iter()
        .map(|e| match e {
            FlashEvent::Percent { value } => *value,
            _ => 255,
        })
        .collect();
    // Chunks of 91, 91, 91 and 27 bytes.
    assert_eq!(values, vec![30, 60, 91, 100]);
    assert_eq!(take_chunk(&data, MAX_ENCODED).0, 91);
}

#[test]
fn packets_are_repeated_in_order_when_refused() {
    let mut port = host();
    for seq in 0..5u8 {
        port.feed(0, &build_packet(seq, b'N', &[]));
        port.feed(0, &build_packet(seq, b'Y', &[]));
    }
    port.send_file("f", b"x").unwrap();
    let types: Vec<u8> = port.written.iter().map(|p| p[3]).collect();
    assert_eq!(types, b"SSFFDDZZBB");
}

#[test]
fn a_receiver_that_drops_repeated_packets_has_the_file() {
    let data: Vec<u8> = (0..700u32).map(|i| (i % 256) as u8).collect();
    let mut port = host();
    for seq in 0..20u8 {
        for _ in 0..seq % 3 {
            port.feed(0, &build_packet(seq, b'N', &[]));
        }
        port.feed(0, &build_packet(seq, b'Y', &[]));
    }
    port.send_file("f.rps", &data).unwrap();
    let mut back: Vec<u8> = Vec::new();
    let mut last = None;
    let mut repeated = 0;
    for bytes in &port.written {
        let (seq, ptype, body) = feeder(vec![bytes.clone()]).read_packet(SECOND).unwrap();
        if last == Some(seq) {
            repeated += 1;
            continue;
        }
        last = Some(seq);
        if ptype == b'D' {
            back.extend(unquote(&body));
        }
    }
    assert!(repeated > 0);
    assert_eq!(back, data);
}

#[test]
fn the_next_packet_waits_for_the_acknowledgement() {
    let mut port = host();
    // The number of another packet acknowledges nothing.
    port.feed(0, &build_packet(1, b'Y', &[]));
    assert!(port.send_file("f", b"x").is_err());
    let types: Vec<u8> = port.written.iter().map(|p| p[3]).collect();
    assert_eq!(types, vec![b'S'; 20]);
}

#[test]
fn a_transfer_ends_at_the_first_packet_that_stays_unacknowledged() {
    let mut port = host();
    port.feed(0, &build_packet(0, b'Y', &[]));
    let Err(FlashError::Plugin(m)) = port.send_file("f", b"x") else {
        panic!("sent");
    };
    assert_eq!(
        m,
        "SIWX917: no ACK for Kermit packet type 'F' after 20 retries"
    );
    assert_eq!(port.written.len(), 21);
}

#[test]
fn a_cancelled_transfer_writes_no_more() {
    let first = send_file(
        "f",
        b"x",
        Moment {
            now: 0,
            cancelled: false,
        },
    );
    let Turn::Ask(m, Request::Write { .. }) = first else {
        panic!("nothing sent");
    };
    let mut turn = m.step(
        Reply::Bytes(Vec::new()),
        Moment {
            now: 0,
            cancelled: false,
        },
    );
    for b in build_packet(0, b'Y', &[]) {
        let Turn::Ask(m, request) = turn else { break };
        assert!(matches!(request, Request::Read { limit: 1 }));
        turn = m.step(
            Reply::Bytes(vec![b]),
            Moment {
                now: 0,
                cancelled: true,
            },
        );
    }
    assert!(matches!(turn, Turn::Failed(FlashError::Cancelled)));
}

// The handshake.

#[test]
fn the_handshake_chooses_the_entry_and_slot_of_the_m4() {
    let mut h = board();
    h.enter_isp_menu(ImageKind::M4).unwrap();
    assert_eq!(h.written, vec![vec![0x1c], vec![b'U'], vec![b'4'], vec![b'1']]);
    let [FlashEvent::Warning { message }] = &h.events[..] else {
        panic!("no prompt");
    };
    assert_eq!(
        message,
        "About to burn the M4 application — put the board into ISP mode now: hold the ISP button, tap Reset, then release ISP (no ISP button: pull GPIO_34/BOOT_MODE low during reset instead)."
    );
}

#[test]
fn the_handshake_chooses_the_entry_and_slot_of_the_network_processor() {
    let mut h = board();
    h.enter_isp_menu(ImageKind::Nwp).unwrap();
    assert_eq!(h.written, vec![vec![0x1c], vec![b'U'], vec![b'B'], vec![b'0']]);
    let [FlashEvent::Warning { message }] = &h.events[..] else {
        panic!("no prompt");
    };
    assert!(message.starts_with("About to burn the NWP/TA wireless firmware — put"));
}

#[test]
fn the_handshake_wakes_and_calls_in_turn_until_the_menu_comes() {
    let mut h = board();
    h.answers[1].1 = b"not yet".to_vec();
    let mut turn = enter_isp_menu(ImageKind::Nwp, h.moment());
    let mut calls = 0;
    loop {
        match turn {
            Turn::Ask(machine, request) => {
                if matches!(&request, Request::Write { bytes } if bytes == b"U") {
                    calls += 1;
                    if calls == 3 {
                        h.answers[1].1 = REAL_MENU.as_bytes().to_vec();
                    }
                }
                let reply = h.reply(request);
                turn = machine.step(reply, h.moment());
            }
            Turn::Done(_) => break,
            Turn::Failed(e) => panic!("{e:?}"),
        }
    }
    assert_eq!(h.outbound(), b"\x1cU\x1cU\x1cUB0");
}

#[test]
fn the_handshake_does_not_wait_for_a_menu_that_is_there() {
    let mut h = board();
    let started = h.now;
    h.enter_isp_menu(ImageKind::M4).unwrap();
    assert!(h.now - started < 2 * SECOND);
    // What the board says after the slot has been consumed.
    assert!(h.inbound.is_empty());
}

#[test]
fn the_handshake_gives_up_after_twenty_tries() {
    let mut h = host();
    h.answers = vec![(b"U".to_vec(), b"[ty D] gpio init".to_vec())];
    let Err(FlashError::Plugin(m)) = h.enter_isp_menu(ImageKind::M4) else {
        panic!("entered");
    };
    assert_eq!(
        m,
        "SIWX917: device never entered ISP mode — hold ISP/BOOT_MODE low during reset and retry (note: on BRD2605A the JLink VCOM port is the console, not the ISP UART)"
    );
    assert_eq!(h.written.len(), 40);
    assert!(h.written.chunks(2).all(|w| w[0] == [0x1c] && w[1] == [b'U']));
    assert_eq!(h.events.len(), 1);
}

#[test]
fn the_handshake_tries_again_when_a_wake_up_or_a_call_cannot_be_written() {
    let mut h = board();
    h.broken_writes = vec![0, 2];
    h.enter_isp_menu(ImageKind::M4).unwrap();
    // A wake-up that failed, a wake-up and a call that failed, then a whole try.
    assert_eq!(h.outbound(), b"\x1c\x1cU\x1cU41");
    assert!(h.slept >= 4 * SECOND);
}

#[test]
fn the_handshake_fails_when_a_choice_cannot_be_written() {
    for broken in [2, 3] {
        let mut h = board();
        h.broken_writes = vec![broken];
        let Err(FlashError::Io(m)) = h.enter_isp_menu(ImageKind::M4) else {
            panic!("entered");
        };
        assert_eq!(m, "broken pipe");
        assert_eq!(h.written.len(), broken + 1);
    }
}

#[test]
fn a_cancelled_handshake_does_nothing() {
    let mut h = board();
    h.cancelled = true;
    assert!(matches!(
        h.enter_isp_menu(ImageKind::M4),
        Err(FlashError::Cancelled)
    ));
    assert!(h.written.is_empty() && h.events.is_empty());
}

// The report.

#[test]
fn confirm_upgrade_survives_the_stray_cr_left_by_the_break_ack() {
    let mut f = feeder_post_burn(REAL_SUCCESS_REPORT);
    let res = f.confirm_upgrade();
    assert!(res.is_ok());
    assert!(
        has_milestone(&f.events, FlashMilestone::VerifyPassed),
        "a leading CR must not cause the real report to be missed"
    );
}

#[test]
fn confirm_upgrade_accepts_the_real_success_report() {
    let mut f = host();
    f.feed(300 * MILLISECOND, REAL_SUCCESS_REPORT.as_bytes());
    let res = f.confirm_upgrade();
    assert!(res.is_ok());
    assert!(has_milestone(&f.events, FlashMilestone::VerifyPassed));
}

#[test]
fn confirm_upgrade_errors_when_the_device_reports_failure() {
    let mut f = feeder_post_burn("\r\nUpgradation Failed\r\n");
    let res = f.confirm_upgrade();
    assert!(matches!(res, Err(FlashError::Plugin(ref m)) if m.contains("failed upgrade")));
}

#[test]
fn confirm_upgrade_warns_but_succeeds_on_an_unrecognised_report() {
    let mut f = feeder_post_burn("\r\nsomething we have never seen\r\n");
    let res = f.confirm_upgrade();
    assert!(res.is_ok());
    assert!(f
        .events
        .iter()
        .any(|e| matches!(e, FlashEvent::Warning { .. })));
}

#[test]
fn confirm_upgrade_waits_through_a_pause_in_the_report() {
    let mut f = host();
    f.feed(200 * MILLISECOND, b"Safe Upgrade in Progress ...");
    f.feed(4 * SECOND, b"Upgradation Successful");
    assert!(f.confirm_upgrade().is_ok());
    assert!(has_milestone(&f.events, FlashMilestone::VerifyPassed));
}

#[test]
fn confirm_upgrade_waits_a_minute_for_a_silent_board() {
    let mut f = host();
    let started = f.now;
    assert!(f.confirm_upgrade().is_ok());
    assert!(f.now - started >= 60 * SECOND && f.now - started < 61 * SECOND);
    let [FlashEvent::Warning { message }] = &f.events[..] else {
        panic!("no warning");
    };
    assert!(message.ends_with("Report: \"\""));
    assert!(f.written.is_empty());
}

// Whole jobs.

fn job(mode: FlashMode) -> FlashJob {
    FlashJob {
        mode,
        chip_id: "SIWX917".to_string(),
        port: String::new(),
        baud_rate: 115200,
        segments: None,
        firmware_path: None,
    }
}

fn rps(control_flags: u16, payload_len: usize) -> Vec<u8> {
    let mut v = vec![0u8; RPS_HEADER_SIZE + payload_len];
    v[0..2].copy_from_slice(&control_flags.to_le_bytes());
    v[4..8].copy_from_slice(&RPS_MAGIC.to_le_bytes());
    v[8..12].copy_from_slice(&(payload_len as u32).to_le_bytes());
    v
}

/// A job for the file at a path, on a port.
fn flash_job() -> FlashJob {
    let mut j = job(FlashMode::Flash);
    j.port = "/dev/ttyUSB0".to_string();
    j.baud_rate = 921_600;
    j.firmware_path = Some("build/app.rps".to_string());
    j
}

#[test]
fn plugin_id_is_siwx917() {
    assert_eq!(Siwx917Plugin.id(), "SIWX917");
}

#[test]
fn erase_is_rejected_without_opening_a_port() {
    let mut h = host();
    let res = h.run(&job(FlashMode::Erase));
    assert!(matches!(res, Err(FlashError::Plugin(ref msg)) if msg.contains("erase")));
    assert!(h.opened.is_empty());
}

#[test]
fn read_is_rejected_without_opening_a_port() {
    let mut h = host();
    let res = h.run(&job(FlashMode::Read));
    assert!(matches!(res, Err(FlashError::Plugin(ref msg)) if msg.contains("read-back")));
    assert!(h.opened.is_empty());
}

#[test]
fn authorize_is_rejected_without_opening_a_port() {
    let mut h = host();
    let res = h.run(&job(FlashMode::Authorize));
    assert!(matches!(res, Err(FlashError::Plugin(ref msg)) if msg.contains("authorize")));
    assert!(h.opened.is_empty());
}

#[test]
fn flash_rejects_missing_firmware_path() {
    let mut h = host();
    let res = h.run(&job(FlashMode::Flash));
    assert!(matches!(res, Err(FlashError::InvalidJob(_))));
}

#[test]
fn other_modes_say_exactly_why_they_fail() {
    let cases = [
        (
            FlashMode::Erase,
            "SIWX917: erase is not exposed by the ROM ISP menu — not supported",
        ),
        (
            FlashMode::Read,
            "SIWX917: flash read-back is not exposed by the ROM ISP menu — not supported",
        ),
        (
            FlashMode::Authorize,
            "SIWX917: authorize mode not supported by this plugin",
        ),
    ];
    for (mode, why) in cases {
        let mut j = flash_job();
        j.mode = mode;
        let Turn::Failed(FlashError::Plugin(m)) = Siwx917Plugin.run(&j) else {
            panic!("not refused");
        };
        assert_eq!(m, why);
    }
}

#[test]
fn a_job_that_goes_well_burns_the_file_and_reports_every_part() {
    let mut h = board();
    let data = rps(0x0001, 100);
    h.file = Ok(data.clone());
    h.run(&flash_job()).unwrap();

    assert_eq!(h.loaded, vec!["build/app.rps".to_string()]);
    // The rate is fixed, whatever the job says.
    assert_eq!(
        h.opened,
        vec![("/dev/ttyUSB0".to_string(), 115_200, 300 * MILLISECOND)]
    );
    assert_eq!(h.written[..4].concat(), b"\x1cU41");
    let packets = &h.written[4..];
    assert_eq!(packets[0], build_packet(0, b'S', &send_init_fields()));
    assert_eq!(packets[1], build_packet(1, b'F', b"app.rps"));
    let mut back: Vec<u8> = Vec::new();
    for bytes in packets {
        let (_, ptype, body) = feeder(vec![bytes.clone()]).read_packet(SECOND).unwrap();
        if ptype == b'D' {
            back.extend(unquote(&body));
        }
    }
    assert_eq!(back, data);

    // Of 164 bytes, nearly all of which have to be quoted, 47 and then 45 at a time fit a packet.
    let told: Vec<String> = h
        .events
        .iter()
        .map(|e| match e {
            FlashEvent::Percent { value } => format!("{value}%"),
            FlashEvent::Phase { phase } => format!("{phase:?}"),
            FlashEvent::Milestone { milestone } => format!("{milestone:?}"),
            _ => "warning".to_string(),
        })
        .collect();
    assert_eq!(
        told,
        vec![
            "Handshake",
            "warning",
            "HandshakeComplete",
            "Write",
            "28%",
            "56%",
            "83%",
            "100%",
            "WriteComplete",
            "Verify",
            "VerifyPassed",
        ]
    );
}

#[test]
fn the_chip_and_the_baud_rate_of_a_job_do_not_matter() {
    let mut played = Vec::new();
    for (chip, baud) in [("SIWX917", 115_200), ("anything", 9_600)] {
        let mut h = board();
        h.file = Ok(rps(0x0001, 100));
        let mut j = flash_job();
        j.chip_id = chip.to_string();
        j.baud_rate = baud;
        h.run(&j).unwrap();
        played.push((h.loaded, h.opened, h.written, h.now));
    }
    assert_eq!(played[0], played[1]);
}

#[test]
fn a_wireless_image_goes_through_the_wireless_entry() {
    let mut h = board();
    h.file = Ok(rps(0x0040, 8));
    h.run(&flash_job()).unwrap();
    assert_eq!(h.written[..4].concat(), b"\x1cUB0");
}

#[test]
fn an_image_is_sent_under_the_last_component_of_its_path() {
    for (path, name) in [
        ("app.rps", "app.rps"),
        ("./app.rps", "app.rps"),
        ("/opt/fw.d/app.rps", "app.rps"),
        ("out/../fw 1.rps", "fw 1.rps"),
        ("a/.hidden", ".hidden"),
        ("build/app.rps/", "app.rps"),
        ("build/app.rps//./", "app.rps"),
        ("C:/fw/app.rps", "app.rps"),
        ("a/b:c", "b:c"),
    ] {
        let mut h = board();
        h.file = Ok(rps(1, 8));
        let mut j = flash_job();
        j.firmware_path = Some(path.to_string());
        h.run(&j).unwrap();
        assert_eq!(h.loaded, vec![path.to_string()]);
        assert_eq!(h.written[5], build_packet(1, b'F', name.as_bytes()));
    }
}

#[test]
fn an_image_without_a_name_is_sent_under_a_made_up_one() {
    for path in ["build/..", "build/../", "..", ".", "./.", "/"] {
        let mut h = board();
        h.file = Ok(rps(1, 8));
        let mut j = flash_job();
        j.firmware_path = Some(path.to_string());
        h.run(&j).unwrap();
        assert_eq!(h.written[5], build_packet(1, b'F', b"firmware.rps"));
    }

    let mut h = board();
    h.file = Ok(rps(1, 8));
    h.play(burn("/dev/ttyUSB0", "build/app.rps", None), RunFlash::step)
        .unwrap();
    assert_eq!(h.loaded, vec!["build/app.rps".to_string()]);
    assert_eq!(h.opened[0].0, "/dev/ttyUSB0");
    assert_eq!(h.written[5], build_packet(1, b'F', b"firmware.rps"));

    let mut h = board();
    h.file = Ok(rps(1, 8));
    let first = burn("/dev/ttyUSB0", "build/app.rps", Some("x.rps".to_string()));
    h.play(first, RunFlash::step).unwrap();
    assert_eq!(h.written[5], build_packet(1, b'F', b"x.rps"));
}

/// A job for a file whose name no packet can hold.
fn long_name_job() -> FlashJob {
    let mut j = flash_job();
    j.firmware_path = Some(format!("build/{}", "a".repeat(221)));
    j
}

#[test]
fn a_name_that_does_not_fit_is_no_matter_before_it_is_sent() {
    let mut h = board();
    h.file = Ok(rps(1, 8));
    h.port_fault = Some("no such device".to_string());
    assert!(matches!(
        h.run(&long_name_job()),
        Err(FlashError::Serial(m)) if m == "no such device"
    ));

    let mut h = board();
    h.file = Ok(rps(1, 8));
    h.cancelled = true;
    assert!(matches!(
        h.run(&long_name_job()),
        Err(FlashError::Cancelled)
    ));

    let mut h = host();
    h.file = Ok(rps(1, 8));
    assert!(matches!(
        h.run(&long_name_job()),
        Err(FlashError::Plugin(m)) if m.contains("never entered ISP mode")
    ));

    let mut h = board();
    h.obliging = false;
    h.file = Ok(rps(1, 8));
    assert!(matches!(
        h.run(&long_name_job()),
        Err(FlashError::Plugin(m)) if m.contains("no ACK for Kermit packet type 'S'")
    ));

    let name = "a".repeat(221);
    let mut port = host();
    port.cancelled = true;
    assert!(matches!(
        port.send_file(&name, b"x"),
        Err(FlashError::Cancelled)
    ));
    let mut port = host();
    assert!(matches!(
        port.send_file(&name, b"x"),
        Err(FlashError::Plugin(m)) if m.contains("no ACK for Kermit packet type 'S'")
    ));
}

#[test]
fn a_job_cannot_take_the_reply_that_has_an_unfit_name_sent() {
    for (job, fits) in [(flash_job(), true), (long_name_job(), false)] {
        let mut h = board();
        h.file = Ok(rps(1, 8));
        let mut turn = Siwx917Plugin.run(&job);
        loop {
            let Turn::Ask(machine, request) = turn else {
                panic!("ended");
            };
            let reply = h.reply(request);
            if !machine.can_take(&reply) {
                assert!(!fits);
                // Send-Init is out, and the check character of its acknowledgement has come in.
                assert_eq!(h.written.last().unwrap()[3], b'S');
                assert!(matches!(reply, Reply::Bytes(b) if b == b">"));
                break;
            }
            turn = machine.step(reply, h.moment());
            if h.written.last().is_some_and(|w| w.len() > 3 && w[3] == b'F') {
                assert!(fits);
                break;
            }
        }
    }
}

#[test]
fn names_are_measured_quoted() {
    for (name, fits) in [
        ("a".repeat(220), true),
        ("a".repeat(221), false),
        ("a".repeat(253), false),
        ("#".repeat(110), true),
        ("#".repeat(111), false),
        ("ä".repeat(110), true),
        ("ä".repeat(111), false),
    ] {
        let mut port = host();
        port.obliging = true;
        let mut turn = send_file(&name, b"x", port.moment());
        let mut taken = true;
        while let Turn::Ask(machine, request) = turn {
            let reply = port.reply(request);
            if !machine.can_take(&reply) {
                taken = false;
                break;
            }
            turn = machine.step(reply, port.moment());
        }
        assert_eq!(taken, fits);
        if fits {
            assert_eq!(
                port.written[1],
                build_packet(1, b'F', &quote(name.as_bytes()))
            );
        }
    }
}

/// What a sender notes until it is done.
fn notes_of(port: &mut Host) -> Vec<String> {
    let mut notes = Vec::new();
    let mut turn = send_and_wait_ack(0, b'S', &[], port.moment());
    while let Turn::Ask(machine, request) = turn {
        if let Some(note) = machine.note() {
            notes.push(match note {
                Note::Refused => "refused".to_string(),
                Note::Unanswered(e) => format!("{e:?}"),
                Note::Ignored { seq, ptype } => format!("ignored {seq} {}", *ptype as char),
            });
        }
        let reply = port.reply(request);
        turn = machine.step(reply, port.moment());
    }
    notes
}

#[test]
fn a_sender_notes_why_it_sends_again_and_what_it_ignores() {
    let mut bad = build_packet(0, b'Y', &[]);
    bad[4] ^= 0x01;
    let mut port = feeder(vec![
        build_packet(0, b'N', &[]),
        build_packet(5, b'Y', &[]),
        bad,
        build_packet(0, b'Y', &[]),
    ]);
    assert_eq!(
        notes_of(&mut port),
        vec![
            "refused",
            "ignored 5 Y",
            "Plugin(\"SIWX917: Kermit checksum mismatch\")",
        ]
    );
    let mut silent = host();
    assert_eq!(
        notes_of(&mut silent),
        vec!["Plugin(\"SIWX917: Kermit read timeout\")"; 19]
    );
    let mut broken = host();
    broken.read_fault = FaultKind::Other;
    assert_eq!(
        notes_of(&mut broken),
        vec!["Io(\"nothing available yet\")"; 19]
    );
}

#[test]
fn a_file_that_is_no_image_never_gets_to_the_port() {
    for file in [
        Ok(Vec::new()),
        Ok(vec![0u8; 64]),
        Ok(rps(1, 32)[..80].to_vec()),
        Err("permission denied".to_string()),
    ] {
        let mut h = board();
        h.file = file;
        assert!(h.run(&flash_job()).is_err());
        assert!(h.opened.is_empty() && h.written.is_empty() && h.events.is_empty());
    }
}

#[test]
fn a_job_says_exactly_what_is_wrong_with_its_file() {
    let mut h = board();
    h.file = Err("permission denied".to_string());
    let Err(FlashError::Plugin(m)) = h.run(&flash_job()) else {
        panic!("read");
    };
    assert_eq!(m, "cannot read firmware 'build/app.rps': permission denied");

    h.file = Ok(Vec::new());
    let Err(FlashError::InvalidJob(m)) = h.run(&flash_job()) else {
        panic!("read");
    };
    assert_eq!(m, "firmware file 'build/app.rps' is empty");
}

#[test]
fn a_port_that_does_not_open_ends_the_job() {
    let mut h = board();
    h.file = Ok(rps(1, 8));
    h.port_fault = Some("no such device".to_string());
    let Err(FlashError::Serial(m)) = h.run(&flash_job()) else {
        panic!("opened");
    };
    assert_eq!(m, "no such device");
    assert!(h.events.is_empty() && h.written.is_empty());
}

#[test]
fn a_cancelled_job_fails_before_it_writes() {
    let mut h = board();
    h.file = Ok(rps(1, 8));
    h.cancelled = true;
    assert!(matches!(
        h.run(&flash_job()),
        Err(FlashError::Cancelled)
    ));
    assert!(h.written.is_empty());
    assert!(matches!(
        h.events[..],
        [FlashEvent::Phase {
            phase: FlashPhase::Handshake
        }]
    ));
}

#[test]
fn a_job_whose_board_reports_no_success_fails() {
    let mut h = board();
    h.file = Ok(rps(1, 8));
    h.last_words = b"\r\nUpgradation Unsuccessful\r\n".to_vec();
    assert!(matches!(
        h.run(&flash_job()),
        Err(FlashError::Plugin(m)) if m.ends_with("Upgradation Unsuccessful")
    ));
    assert!(!has_milestone(&h.events, FlashMilestone::VerifyPassed));
}

#[test]
fn a_job_whose_board_reports_failure_fails() {
    let mut h = board();
    h.file = Ok(rps(1, 8));
    h.last_words = b"\r\nUpgradation Failed\r\n".to_vec();
    let Err(FlashError::Plugin(m)) = h.run(&flash_job()) else {
        panic!("passed");
    };
    assert_eq!(
        m,
        "SIWX917: device reported a failed upgrade: Upgradation Failed"
    );
    assert!(has_milestone(&h.events, FlashMilestone::WriteComplete));
    assert!(!has_milestone(&h.events, FlashMilestone::VerifyPassed));
}
