//! Whole operations against a model of the chip that records every bus call.

use w25q::bus::{BusCall, Ending, Reply, Step};
use w25q::error::Error;
use w25q::ident::JedecId;
use w25q::operation::{ChipState, Operation, Stage};
use w25q::task::{Outcome, Task};

#[derive(Debug, Clone, PartialEq, Eq)]
struct BusDown(u32);

#[derive(Debug, Clone, PartialEq, Eq)]
struct PinStuck(u32);

#[derive(Debug, Clone, PartialEq, Eq)]
enum Seen {
    Select,
    Deselect,
    Write(Vec<u8>),
    Transfer(Vec<u8>),
    Read(usize),
}

/// A chip of 128 KiB behind a pin and a bus that fail on request.
struct Chip {
    memory: Vec<u8>,
    id: [u8; 3],
    latch: bool,
    busy_left: usize,
    busy_after_change: usize,
    forced_status: Option<u8>,
    selected: bool,
    garbled: bool,
    mosi: Vec<u8>,
    seen: Vec<Seen>,
    read_out: Vec<u8>,
    fail_call: Option<usize>,
    offences: Vec<String>,
}

const SIZE: usize = 128 * 1024;

impl Chip {
    fn new() -> Chip {
        Chip {
            memory: (0..SIZE).map(|i| (i % 251) as u8).collect(),
            id: [0xEF, 0x40, 0x18],
            latch: false,
            busy_left: 0,
            busy_after_change: 2,
            forced_status: None,
            selected: false,
            garbled: false,
            mosi: Vec::new(),
            seen: Vec::new(),
            read_out: Vec::new(),
            fail_call: None,
            offences: Vec::new(),
        }
    }

    fn status(&self) -> u8 {
        match self.forced_status {
            Some(status) => status,
            None => (if self.busy_left > 0 { 1 } else { 0 }) | (if self.latch { 2 } else { 0 }),
        }
    }

    fn address(&self) -> usize {
        ((self.mosi[1] as usize) << 16 | (self.mosi[2] as usize) << 8 | self.mosi[3] as usize)
            % SIZE
    }

    fn change_allowed(&mut self, what: &str) -> bool {
        if !self.latch {
            self.offences.push(format!("{} without write enable", what));
            return false;
        }
        if self.busy_left > 0 {
            self.offences.push(format!("{} while busy", what));
            return false;
        }
        true
    }

    fn erase(&mut self, start: usize, len: usize) {
        for cell in &mut self.memory[start..start + len] {
            *cell = 0xFF;
        }
    }

    fn finish_command(&mut self) {
        if self.mosi.is_empty() {
            self.offences.push("empty command".to_string());
            return;
        }
        match self.mosi[0] {
            0x06 => self.latch = true,
            0x04 => self.latch = false,
            0x02 => {
                if self.change_allowed("program") {
                    let addr = self.address();
                    let page = addr & !0xFF;
                    for k in 0..self.mosi.len() - 4 {
                        let target = page | ((addr + k) & 0xFF);
                        self.memory[target] &= self.mosi[4 + k];
                    }
                    self.latch = false;
                    self.busy_left = self.busy_after_change;
                }
            }
            0x20 => {
                if self.change_allowed("sector erase") {
                    let start = self.address() & !0xFFF;
                    self.erase(start, 4096);
                    self.latch = false;
                    self.busy_left = self.busy_after_change;
                }
            }
            0xD8 => {
                if self.change_allowed("block erase") {
                    let start = self.address() & !0xFFFF;
                    self.erase(start, 65536);
                    self.latch = false;
                    self.busy_left = self.busy_after_change;
                }
            }
            0xC7 => {
                if self.change_allowed("chip erase") {
                    self.erase(0, SIZE);
                    self.latch = false;
                    self.busy_left = self.busy_after_change;
                }
            }
            _ => {}
        }
    }

    fn perform(&mut self, call: &BusCall) -> Reply<BusDown, PinStuck> {
        let index = self.seen.len();
        let failing = self.fail_call == Some(index);
        match call {
            BusCall::Select => {
                self.seen.push(Seen::Select);
                if failing {
                    return Reply::PinFault(PinStuck(index as u32));
                }
                if self.selected {
                    self.offences.push("select while selected".to_string());
                }
                self.selected = true;
                self.garbled = false;
                self.mosi.clear();
                Reply::Done
            }
            BusCall::Deselect => {
                self.seen.push(Seen::Deselect);
                if failing {
                    return Reply::PinFault(PinStuck(index as u32));
                }
                if self.selected && !self.garbled {
                    self.finish_command();
                }
                self.selected = false;
                Reply::Done
            }
            BusCall::Write(bytes) => {
                self.seen.push(Seen::Write(bytes.clone()));
                if !self.selected {
                    self.offences.push("write while deselected".to_string());
                }
                if failing {
                    self.garbled = true;
                    return Reply::SpiFault(BusDown(index as u32));
                }
                self.mosi.extend_from_slice(bytes);
                Reply::Done
            }
            BusCall::Transfer(bytes) => {
                self.seen.push(Seen::Transfer(bytes.clone()));
                if !self.selected {
                    self.offences.push("transfer while deselected".to_string());
                }
                if failing {
                    self.garbled = true;
                    return Reply::SpiFault(BusDown(index as u32));
                }
                let mut back = vec![0xFF; bytes.len()];
                match bytes[0] {
                    0x05 => {
                        for slot in back.iter_mut().skip(1) {
                            *slot = self.status();
                        }
                        if self.busy_left > 0 {
                            self.busy_left -= 1;
                        }
                    }
                    0x9F => {
                        for (k, slot) in back.iter_mut().enumerate().skip(1) {
                            *slot = self.id[(k - 1) % 3];
                        }
                    }
                    _ => {}
                }
                self.mosi.extend_from_slice(bytes);
                Reply::Received(back)
            }
            BusCall::Read(len) => {
                self.seen.push(Seen::Read(*len));
                if !self.selected {
                    self.offences.push("read while deselected".to_string());
                }
                if failing {
                    self.garbled = true;
                    return Reply::SpiFault(BusDown(index as u32));
                }
                if self.mosi.len() == 4 && self.mosi[0] == 0x03 {
                    let addr = self.address();
                    for k in 0..*len {
                        self.read_out.push(self.memory[(addr + k) % SIZE]);
                    }
                }
                Reply::Done
            }
        }
    }
}

type Outcomes = Result<Outcome, Error<BusDown, PinStuck>>;

fn drive(op: &mut Operation<BusDown, PinStuck>, chip: &mut Chip) -> Outcomes {
    chip.seen.clear();
    chip.read_out.clear();
    let mut step: Step<Outcome, BusDown, PinStuck> = op.start();
    loop {
        let call = match step {
            Step::Finished(result) => return result,
            Step::Call(call) => call,
        };
        assert!(op.is_awaiting());
        let reply = chip.perform(&call);
        assert!(op.expects(&reply));
        step = op.resume(reply);
    }
}

fn run(task: Task, chip: &mut Chip) -> Outcomes {
    let mut op = Operation::new(task);
    drive(&mut op, chip)
}

fn command(head: &[u8]) -> Vec<Seen> {
    vec![Seen::Select, Seen::Write(head.to_vec()), Seen::Deselect]
}

fn status_read() -> Vec<Seen> {
    vec![Seen::Select, Seen::Transfer(vec![0x05, 0x00]), Seen::Deselect]
}

fn program(head: &[u8], data: &[u8]) -> Vec<Seen> {
    vec![Seen::Select, Seen::Write(head.to_vec()), Seen::Write(data.to_vec()), Seen::Deselect]
}

fn is_ok(result: &Outcomes, expected: Outcome) -> bool {
    matches!(result, Ok(outcome) if *outcome == expected)
}

/// Whether the calls keep the chip-select discipline, and whether the chip is left
/// selected.
fn discipline(seen: &[Seen]) -> (bool, bool) {
    let mut selected = false;
    let mut fine = true;
    for (k, call) in seen.iter().enumerate() {
        match call {
            Seen::Select => {
                fine &= !selected;
                selected = true;
            }
            Seen::Deselect => {
                fine &= selected || k == 0;
                selected = false;
            }
            _ => fine &= selected,
        }
    }
    (fine, selected)
}

#[test]
fn jedec_id_is_read_in_one_transfer() {
    let mut chip = Chip::new();
    let result = run(Task::ReadJedecId, &mut chip);
    assert!(is_ok(&result, Outcome::Identity(JedecId::new(0xEF, 0x40, 0x18))));
    assert_eq!(
        chip.seen,
        vec![Seen::Select, Seen::Transfer(vec![0x9F, 0, 0, 0]), Seen::Deselect]
    );
}

#[test]
fn status_is_handed_on_as_it_came() {
    let mut chip = Chip::new();
    chip.forced_status = Some(0x7E);
    let result = run(Task::ReadStatus, &mut chip);
    assert!(is_ok(&result, Outcome::Status(0x7E)));
    assert_eq!(chip.seen, status_read());
}

#[test]
fn read_sends_the_address_and_receives_the_length() {
    let mut chip = Chip::new();
    let result = run(Task::Read { addr: 0x000100, len: 16 }, &mut chip);
    assert!(is_ok(&result, Outcome::Done));
    assert_eq!(
        chip.seen,
        vec![Seen::Select, Seen::Write(vec![0x03, 0x00, 0x01, 0x00]), Seen::Read(16), Seen::Deselect]
    );
    assert_eq!(chip.read_out, chip.memory[0x100..0x110].to_vec());
}

#[test]
fn read_of_nothing_is_still_one_command() {
    let mut chip = Chip::new();
    let result = run(Task::Read { addr: 0x012345, len: 0 }, &mut chip);
    assert!(is_ok(&result, Outcome::Done));
    assert_eq!(
        chip.seen,
        vec![Seen::Select, Seen::Write(vec![0x03, 0x01, 0x23, 0x45]), Seen::Read(0), Seen::Deselect]
    );
}

#[test]
fn read_drops_the_bits_above_the_address_space() {
    let mut chip = Chip::new();
    let result = run(Task::Read { addr: 0xAB00_0102, len: 3 }, &mut chip);
    assert!(is_ok(&result, Outcome::Done));
    assert_eq!(chip.seen[1], Seen::Write(vec![0x03, 0x00, 0x01, 0x02]));
}

#[test]
fn write_is_split_at_the_page_boundary() {
    let mut chip = Chip::new();
    chip.busy_after_change = 2;
    let data: Vec<u8> = (0..32).map(|i| 0xA0 + i as u8).collect();
    let result = run(Task::WriteBytes { addr: 0x0000F0, data: data.clone() }, &mut chip);
    assert!(is_ok(&result, Outcome::Done));
    let mut expected = Vec::new();
    expected.extend(command(&[0x06]));
    expected.extend(program(&[0x02, 0x00, 0x00, 0xF0], &data[..16]));
    expected.extend(status_read());
    expected.extend(status_read());
    expected.extend(status_read());
    expected.extend(command(&[0x06]));
    expected.extend(program(&[0x02, 0x00, 0x01, 0x00], &data[16..]));
    expected.extend(status_read());
    expected.extend(status_read());
    expected.extend(status_read());
    assert_eq!(chip.seen, expected);
    assert!(chip.offences.is_empty());
}

#[test]
fn write_inside_one_page_is_one_cycle() {
    let mut chip = Chip::new();
    chip.busy_after_change = 0;
    let data = vec![1, 2, 3];
    let result = run(Task::WriteBytes { addr: 0x000210, data: data.clone() }, &mut chip);
    assert!(is_ok(&result, Outcome::Done));
    let mut expected = Vec::new();
    expected.extend(command(&[0x06]));
    expected.extend(program(&[0x02, 0x00, 0x02, 0x10], &data));
    expected.extend(status_read());
    assert_eq!(chip.seen, expected);
}

#[test]
fn write_up_to_the_page_end_does_not_start_another_cycle() {
    let mut chip = Chip::new();
    chip.busy_after_change = 0;
    let data = vec![7; 256];
    let result = run(Task::WriteBytes { addr: 0x000300, data: data.clone() }, &mut chip);
    assert!(is_ok(&result, Outcome::Done));
    let mut expected = Vec::new();
    expected.extend(command(&[0x06]));
    expected.extend(program(&[0x02, 0x00, 0x03, 0x00], &data));
    expected.extend(status_read());
    assert_eq!(chip.seen, expected);
}

#[test]
fn write_of_nothing_makes_no_call() {
    let mut chip = Chip::new();
    let mut op: Operation<BusDown, PinStuck> = Operation::write_bytes(0x1234, Vec::new());
    let result = drive(&mut op, &mut chip);
    assert!(is_ok(&result, Outcome::Done));
    assert!(chip.seen.is_empty());
    assert_eq!(op.ending(), Some(Ending::Completed));
}

#[test]
fn write_over_the_end_of_the_address_space_goes_on_at_zero() {
    let mut chip = Chip::new();
    chip.busy_after_change = 0;
    let data = vec![9; 4];
    let result = run(Task::WriteBytes { addr: 0xFF_FFFE, data: data.clone() }, &mut chip);
    assert!(is_ok(&result, Outcome::Done));
    let mut expected = Vec::new();
    expected.extend(command(&[0x06]));
    expected.extend(program(&[0x02, 0xFF, 0xFF, 0xFE], &data[..2]));
    expected.extend(status_read());
    expected.extend(command(&[0x06]));
    expected.extend(program(&[0x02, 0x00, 0x00, 0x00], &data[2..]));
    expected.extend(status_read());
    assert_eq!(chip.seen, expected);
}

#[test]
fn sectors_are_erased_one_cycle_each() {
    let mut chip = Chip::new();
    chip.busy_after_change = 1;
    let result = run(Task::EraseSectors { addr: 0x001000, count: 2 }, &mut chip);
    assert!(is_ok(&result, Outcome::Done));
    let mut expected = Vec::new();
    expected.extend(command(&[0x06]));
    expected.extend(command(&[0x20, 0x00, 0x10, 0x00]));
    expected.extend(status_read());
    expected.extend(status_read());
    expected.extend(command(&[0x06]));
    expected.extend(command(&[0x20, 0x00, 0x20, 0x00]));
    expected.extend(status_read());
    expected.extend(status_read());
    assert_eq!(chip.seen, expected);
    assert!(chip.memory[0x1000..0x3000].iter().all(|b| *b == 0xFF));
    assert_eq!(chip.memory[0x0FFF], (0x0FFF % 251) as u8);
    assert_eq!(chip.memory[0x3000], (0x3000 % 251) as u8);
}

#[test]
fn sector_erase_starts_at_the_sector_of_its_address() {
    let mut chip = Chip::new();
    chip.busy_after_change = 0;
    let result = run(Task::EraseSectors { addr: 0x001234, count: 1 }, &mut chip);
    assert!(is_ok(&result, Outcome::Done));
    assert_eq!(chip.seen[4], Seen::Write(vec![0x20, 0x00, 0x10, 0x00]));
}

#[test]
fn erase_of_no_sectors_makes_no_call() {
    let mut chip = Chip::new();
    let result = run(Task::EraseSectors { addr: 0x001000, count: 0 }, &mut chip);
    assert!(is_ok(&result, Outcome::Done));
    assert!(chip.seen.is_empty());
}

#[test]
fn block_erase_starts_at_the_block_of_its_address() {
    let mut chip = Chip::new();
    chip.busy_after_change = 3;
    let mut op: Operation<BusDown, PinStuck> = Operation::erase_block(0x01_8765);
    let result = drive(&mut op, &mut chip);
    assert!(is_ok(&result, Outcome::Done));
    let mut expected = Vec::new();
    expected.extend(command(&[0x06]));
    expected.extend(command(&[0xD8, 0x01, 0x00, 0x00]));
    for _ in 0..4 {
        expected.extend(status_read());
    }
    assert_eq!(chip.seen, expected);
    assert!(chip.memory[0x10000..0x20000].iter().all(|b| *b == 0xFF));
    assert_eq!(chip.memory[0xFFFF], (0xFFFF % 251) as u8);
}

#[test]
fn chip_erase_is_one_cycle() {
    let mut chip = Chip::new();
    chip.busy_after_change = 1;
    let mut op: Operation<BusDown, PinStuck> = Operation::erase_all();
    let result = drive(&mut op, &mut chip);
    assert!(is_ok(&result, Outcome::Done));
    let mut expected = Vec::new();
    expected.extend(command(&[0x06]));
    expected.extend(command(&[0xC7]));
    expected.extend(status_read());
    expected.extend(status_read());
    assert_eq!(chip.seen, expected);
    assert!(chip.memory.iter().all(|b| *b == 0xFF));
}

#[test]
fn init_deselects_and_checks_the_status() {
    let mut chip = Chip::new();
    let mut op: Operation<BusDown, PinStuck> = Operation::init();
    let result = drive(&mut op, &mut chip);
    assert!(is_ok(&result, Outcome::Done));
    let mut expected = vec![Seen::Deselect];
    expected.extend(status_read());
    assert_eq!(chip.seen, expected);
    assert_eq!(op.stage(), Stage::Query);
}

#[test]
fn init_rejects_a_status_with_the_reserved_bit() {
    let mut chip = Chip::new();
    chip.forced_status = Some(0x40);
    let result = run(Task::Init, &mut chip);
    assert!(matches!(result, Err(Error::UnexpectedStatus)));
    let mut expected = vec![Seen::Deselect];
    expected.extend(status_read());
    assert_eq!(chip.seen, expected);
}

#[test]
fn init_rejects_a_busy_chip() {
    let mut chip = Chip::new();
    chip.forced_status = Some(0x01);
    let result = run(Task::Init, &mut chip);
    assert!(matches!(result, Err(Error::UnexpectedStatus)));
}

#[test]
fn init_accepts_a_set_latch() {
    let mut chip = Chip::new();
    chip.forced_status = Some(0x02);
    let result = run(Task::Init, &mut chip);
    assert!(is_ok(&result, Outcome::Done));
}

#[test]
fn init_reports_a_pin_that_cannot_be_set() {
    let mut chip = Chip::new();
    chip.fail_call = Some(0);
    let mut op: Operation<BusDown, PinStuck> = Operation::init();
    let result = drive(&mut op, &mut chip);
    assert!(matches!(result, Err(Error::Gpio(PinStuck(0)))));
    assert_eq!(chip.seen, vec![Seen::Deselect]);
    assert_eq!(op.ending(), Some(Ending::PinFailed));
}

#[test]
fn free_checks_that_the_chip_is_idle() {
    let mut chip = Chip::new();
    let mut op: Operation<BusDown, PinStuck> = Operation::free();
    let result = drive(&mut op, &mut chip);
    assert!(is_ok(&result, Outcome::Done));
    assert_eq!(chip.seen, status_read());

    chip.forced_status = Some(0x03);
    let result = run(Task::Free, &mut chip);
    assert!(matches!(result, Err(Error::UnexpectedStatus)));
    assert_eq!(chip.seen, status_read());
}

#[test]
fn bus_failure_still_deselects_the_chip() {
    let mut chip = Chip::new();
    chip.fail_call = Some(1);
    let mut op: Operation<BusDown, PinStuck> = Operation::read_jedec_id();
    let result = drive(&mut op, &mut chip);
    assert!(matches!(result, Err(Error::Spi(BusDown(1)))));
    assert_eq!(
        chip.seen,
        vec![Seen::Select, Seen::Transfer(vec![0x9F, 0, 0, 0]), Seen::Deselect]
    );
    assert!(!chip.selected);
    assert_eq!(op.ending(), Some(Ending::BusFailed));
}

#[test]
fn bus_failure_in_the_address_skips_the_data() {
    let mut chip = Chip::new();
    chip.fail_call = Some(1);
    let result = run(Task::Read { addr: 0x10, len: 8 }, &mut chip);
    assert!(matches!(result, Err(Error::Spi(BusDown(1)))));
    assert_eq!(
        chip.seen,
        vec![Seen::Select, Seen::Write(vec![0x03, 0x00, 0x00, 0x10]), Seen::Deselect]
    );
}

#[test]
fn bus_failure_in_the_data_is_reported_after_deselecting() {
    let mut chip = Chip::new();
    chip.fail_call = Some(2);
    let result = run(Task::Read { addr: 0x10, len: 8 }, &mut chip);
    assert!(matches!(result, Err(Error::Spi(BusDown(2)))));
    assert_eq!(chip.seen.len(), 4);
    assert_eq!(chip.seen[3], Seen::Deselect);
}

#[test]
fn select_failure_ends_the_operation_at_once() {
    let mut chip = Chip::new();
    chip.fail_call = Some(0);
    let result = run(Task::ReadStatus, &mut chip);
    assert!(matches!(result, Err(Error::Gpio(PinStuck(0)))));
    assert_eq!(chip.seen, vec![Seen::Select]);
}

#[test]
fn deselect_failure_outweighs_a_bus_failure() {
    let mut chip = Chip::new();
    let mut op: Operation<BusDown, PinStuck> = Operation::read_status();
    let step: Step<Outcome, BusDown, PinStuck> = op.start();
    assert!(matches!(step, Step::Call(BusCall::Select)));
    let step = op.resume(Reply::Done);
    assert!(matches!(step, Step::Call(BusCall::Transfer(_))));
    let step = op.resume(Reply::SpiFault(BusDown(7)));
    assert!(matches!(step, Step::Call(BusCall::Deselect)));
    let step = op.resume(Reply::PinFault(PinStuck(8)));
    assert!(matches!(step, Step::Finished(Err(Error::Gpio(PinStuck(8))))));
    assert!(!op.is_awaiting());
    let _ = chip.seen.len();
}

#[test]
fn failure_in_a_later_cycle_ends_the_write_there() {
    let mut chip = Chip::new();
    chip.busy_after_change = 0;
    chip.fail_call = Some(15);
    let data = vec![0x55; 300];
    let result = run(Task::WriteBytes { addr: 0, data }, &mut chip);
    assert!(matches!(result, Err(Error::Spi(BusDown(15)))));
    assert_eq!(chip.seen.len(), 17);
    assert_eq!(chip.seen[16], Seen::Deselect);
    assert!(!chip.selected);
}

#[test]
fn reserved_bit_during_polling_ends_the_write() {
    let mut chip = Chip::new();
    chip.forced_status = Some(0x41);
    let data = vec![0x55; 300];
    let mut op: Operation<BusDown, PinStuck> = Operation::write_bytes(0, data.clone());
    let result = drive(&mut op, &mut chip);
    assert!(matches!(result, Err(Error::UnexpectedStatus)));
    let mut expected = Vec::new();
    expected.extend(command(&[0x06]));
    expected.extend(program(&[0x02, 0x00, 0x00, 0x00], &data[..256]));
    expected.extend(status_read());
    assert_eq!(chip.seen, expected);
    assert_eq!(op.ending(), Some(Ending::Rejected));
    assert_eq!(op.stage(), Stage::Poll);
}

#[test]
fn replies_that_do_not_answer_the_call_are_told_apart() {
    let mut op: Operation<BusDown, PinStuck> = Operation::read_status();
    let _first: Step<Outcome, BusDown, PinStuck> = op.start();
    assert!(op.expects(&Reply::Done));
    assert!(op.expects(&Reply::PinFault(PinStuck(1))));
    assert!(!op.expects(&Reply::SpiFault(BusDown(1))));
    assert!(!op.expects(&Reply::Received(vec![0, 0])));
    let _second: Step<Outcome, BusDown, PinStuck> = op.resume(Reply::Done);
    assert!(op.expects(&Reply::Received(vec![0, 0])));
    assert!(op.expects(&Reply::SpiFault(BusDown(1))));
    assert!(!op.expects(&Reply::Received(vec![0])));
    assert!(!op.expects(&Reply::Done));
    assert!(!op.expects(&Reply::PinFault(PinStuck(1))));
}

#[test]
fn erase_write_read_round_trip() {
    let mut chip = Chip::new();
    let start = 0x002000;
    let data: Vec<u8> = (0..4096u32).map(|i| (i * 7 + 3) as u8).collect();
    assert!(is_ok(&run(Task::EraseSectors { addr: start, count: 1 }, &mut chip), Outcome::Done));
    assert!(is_ok(
        &run(Task::WriteBytes { addr: start, data: data.clone() }, &mut chip),
        Outcome::Done
    ));
    assert!(is_ok(&run(Task::Read { addr: start, len: data.len() }, &mut chip), Outcome::Done));
    assert_eq!(chip.read_out, data);
    assert!(chip.offences.is_empty());
}

#[test]
fn unaligned_round_trip_crosses_pages_correctly() {
    let mut chip = Chip::new();
    let start = 0x0040C5;
    let data: Vec<u8> = (0..1000u32).map(|i| (i * 13 + 1) as u8).collect();
    assert!(is_ok(&run(Task::EraseSectors { addr: start, count: 2 }, &mut chip), Outcome::Done));
    assert!(is_ok(
        &run(Task::WriteBytes { addr: start, data: data.clone() }, &mut chip),
        Outcome::Done
    ));
    assert!(is_ok(&run(Task::Read { addr: start, len: data.len() }, &mut chip), Outcome::Done));
    assert_eq!(chip.read_out, data);
    assert!(chip.offences.is_empty());
}

fn tasks() -> Vec<Task> {
    vec![
        Task::Init,
        Task::Free,
        Task::ReadJedecId,
        Task::ReadStatus,
        Task::Read { addr: 0x1FF, len: 5 },
        Task::WriteBytes { addr: 0x0FE, data: vec![1, 2, 3, 4, 5] },
        Task::EraseSectors { addr: 0x3000, count: 2 },
        Task::EraseBlock { addr: 0x10000 },
        Task::EraseAll,
    ]
}

#[test]
fn chip_select_brackets_every_command_whatever_fails() {
    for fail in 0..40usize {
        for task in tasks() {
            let mut chip = Chip::new();
            chip.busy_after_change = 1;
            chip.fail_call = Some(fail);
            let result = run(task, &mut chip);
            let (fine, selected) = discipline(&chip.seen);
            assert!(fine, "calls out of order: {:?}", chip.seen);
            match result {
                Err(Error::Gpio(_)) => {}
                _ => assert!(!selected, "chip left selected: {:?}", chip.seen),
            }
            assert!(chip.offences.is_empty(), "{:?}", chip.offences);
        }
    }
}

#[test]
fn write_enable_comes_directly_before_every_change() {
    for task in tasks() {
        let mut chip = Chip::new();
        chip.busy_after_change = 2;
        let _ = run(task, &mut chip);
        let heads: Vec<(usize, u8)> = chip
            .seen
            .iter()
            .enumerate()
            .filter(|(k, _)| *k > 0 && chip.seen[k - 1] == Seen::Select)
            .map(|(k, call)| match call {
                Seen::Write(bytes) => (k, bytes[0]),
                Seen::Transfer(bytes) => (k, bytes[0]),
                _ => (k, 0),
            })
            .collect();
        for (n, (_, opcode)) in heads.iter().enumerate() {
            if [0x02u8, 0x20, 0xD8, 0xC7].contains(opcode) {
                assert!(n >= 1);
                assert_eq!(heads[n - 1].1, 0x06);
            }
        }
    }
}

#[test]
fn no_program_command_crosses_a_page() {
    for addr in [0u32, 1, 0xFF, 0x100, 0x1F0, 0x7FFF] {
        for len in [1usize, 2, 15, 16, 17, 255, 256, 257, 600] {
            let mut chip = Chip::new();
            chip.busy_after_change = 0;
            let data = vec![0u8; len];
            let result = run(Task::WriteBytes { addr, data }, &mut chip);
            assert!(is_ok(&result, Outcome::Done));
            let mut total = 0;
            for k in 1..chip.seen.len() {
                if let (Seen::Write(head), Seen::Write(data)) = (&chip.seen[k - 1], &chip.seen[k]) {
                    assert_eq!(head[0], 0x02);
                    assert!(!data.is_empty());
                    assert!(head[3] as usize + data.len() <= 256);
                    let at = (head[1] as u32) << 16 | (head[2] as u32) << 8 | head[3] as u32;
                    assert_eq!(at, addr + total as u32);
                    total += data.len();
                }
            }
            assert_eq!(total, len);
        }
    }
}

#[test]
fn progress_counts_the_work_that_is_done() {
    let mut chip = Chip::new();
    chip.busy_after_change = 1;
    let mut op: Operation<BusDown, PinStuck> = Operation::write_bytes(0x0000F0, vec![0x11; 40]);
    assert_eq!(op.progress(), 0);
    assert_eq!(op.stage(), Stage::Fresh);
    let mut step = op.start();
    let mut seen_progress = vec![op.progress()];
    let mut polls = 0;
    loop {
        let call = match step {
            Step::Finished(result) => {
                assert!(is_ok(&result, Outcome::Done));
                break;
            }
            Step::Call(call) => call,
        };
        if op.is_polling() && matches!(call, BusCall::Select) {
            polls += 1;
        }
        let reply = chip.perform(&call);
        step = op.resume(reply);
        if *seen_progress.last().unwrap() != op.progress() {
            seen_progress.push(op.progress());
        }
    }
    assert_eq!(seen_progress, vec![0, 16, 40]);
    assert_eq!(polls, 4);
    assert!(!op.is_polling());
    assert!(!op.is_awaiting());
    assert_eq!(op.stage(), Stage::Enable);
    assert_eq!(op.ending(), Some(Ending::Completed));
}

#[test]
fn endings_tell_how_an_operation_stopped() {
    let mut chip = Chip::new();
    let mut op: Operation<BusDown, PinStuck> = Operation::read_status();
    assert_eq!(op.ending(), None);
    let _ = drive(&mut op, &mut chip);
    assert_eq!(op.ending(), Some(Ending::Completed));

    chip.forced_status = Some(0xC0);
    let mut op: Operation<BusDown, PinStuck> = Operation::free();
    let _ = drive(&mut op, &mut chip);
    assert_eq!(op.ending(), Some(Ending::Rejected));

    chip.fail_call = Some(1);
    let mut op: Operation<BusDown, PinStuck> = Operation::erase_all();
    let _ = drive(&mut op, &mut chip);
    assert_eq!(op.ending(), Some(Ending::BusFailed));
    assert_eq!(op.stage(), Stage::Enable);

    chip.fail_call = Some(3);
    let mut op: Operation<BusDown, PinStuck> = Operation::erase_all();
    let _ = drive(&mut op, &mut chip);
    assert_eq!(op.ending(), Some(Ending::PinFailed));
    assert_eq!(op.stage(), Stage::Change);
}

#[test]
fn every_address_on_the_wire_is_big_endian() {
    for addr in [0u32, 0x10, 0x1234, 0x0F_FF00, 0xFF_FFFF, 0x1200_3456] {
        let mut chip = Chip::new();
        let _ = run(Task::Read { addr, len: 1 }, &mut chip);
        let expected = vec![0x03, (addr >> 16) as u8, (addr >> 8) as u8, addr as u8];
        assert_eq!(chip.seen[1], Seen::Write(expected));
    }
    let mut chip = Chip::new();
    chip.busy_after_change = 0;
    let _ = run(Task::EraseSectors { addr: 0x0A_B000, count: 3 }, &mut chip);
    let heads: Vec<&Seen> =
        chip.seen.iter().filter(|c| matches!(c, Seen::Write(b) if b[0] == 0x20)).collect();
    assert_eq!(
        heads,
        vec![
            &Seen::Write(vec![0x20, 0x0A, 0xB0, 0x00]),
            &Seen::Write(vec![0x20, 0x0A, 0xC0, 0x00]),
            &Seen::Write(vec![0x20, 0x0A, 0xD0, 0x00]),
        ]
    );
}

#[test]
fn success_comes_only_after_an_idle_status() {
    for busy in [0usize, 1, 5] {
        let mut chip = Chip::new();
        chip.busy_after_change = busy;
        let result = run(Task::EraseBlock { addr: 0 }, &mut chip);
        assert!(is_ok(&result, Outcome::Done));
        let polls = chip.seen.iter().filter(|c| **c == Seen::Transfer(vec![0x05, 0x00])).count();
        assert_eq!(polls, busy + 1);
        assert_eq!(chip.busy_left, 0);
        assert_eq!(chip.seen[chip.seen.len() - 2], Seen::Transfer(vec![0x05, 0x00]));
    }
}

#[test]
fn chip_state_follows_the_commands() {
    let mut chip = Chip::new();
    chip.busy_after_change = 1;
    let mut op: Operation<BusDown, PinStuck> = Operation::erase_block(0);
    assert_eq!(op.chip_state(), ChipState::Idle);
    let mut states = Vec::new();
    let mut step = op.start();
    loop {
        states.push(op.chip_state());
        let call = match step {
            Step::Finished(_) => break,
            Step::Call(call) => call,
        };
        let reply = chip.perform(&call);
        step = op.resume(reply);
    }
    let busy = ChipState::InTransaction;
    let waiting = ChipState::AwaitingCompletion;
    let idle = ChipState::Idle;
    assert_eq!(
        states,
        vec![
            busy, busy, idle, // enable writing
            busy, busy, waiting, // erase
            busy, busy, waiting, // status: busy
            busy, busy, waiting, // status: idle
            idle,
        ]
    );
}

#[test]
fn chip_state_of_a_read_is_idle_before_and_after() {
    let mut chip = Chip::new();
    let mut op: Operation<BusDown, PinStuck> = Operation::read(0, 4);
    assert_eq!(op.chip_state(), ChipState::Idle);
    let mut step = op.start();
    let mut selected = 0;
    loop {
        let call = match step {
            Step::Finished(_) => break,
            Step::Call(call) => call,
        };
        if op.chip_state() == ChipState::InTransaction {
            selected += 1;
        }
        let reply = chip.perform(&call);
        step = op.resume(reply);
    }
    assert_eq!(selected, 3);
    assert_eq!(op.chip_state(), ChipState::Idle);
}
