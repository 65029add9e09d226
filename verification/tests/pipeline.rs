use reapfrog::{
    Advice, AdviceKind, MultiFileReadahead, Opened, Status, Turn, DEFAULT_BUDGET,
    DROPBEHIND_BLOCK, MAX_OPEN, PREFETCH_BLOCK,
};
use std::collections::VecDeque;
use std::io::{Error, ErrorKind};
use std::path::PathBuf;

const KIB: u64 = 1024;
const MIB: u64 = 1024 * 1024;

/// What a turn ended with, in a form that can be compared.
#[derive(Debug, PartialEq)]
enum Ended {
    Idle,
    File(u32),
    Failed(String),
    End,
}

/// A path source of `(handle, length)` pairs and of paths that fail, a
/// pipeline, and a record of every advice given, with the handle it was
/// given on.
struct Driver {
    core: MultiFileReadahead<u32>,
    source: VecDeque<Result<(u32, u64), &'static str>>,
    given: Vec<(u32, Advice)>,
    released: Vec<u32>,
    pulls: usize,
}

impl Driver {
    fn new(items: Vec<Result<(u32, u64), &'static str>>) -> Driver {
        Driver {
            core: MultiFileReadahead::new(),
            source: items.into_iter().collect(),
            given: Vec::new(),
            released: Vec::new(),
            pulls: 0,
        }
    }

    fn files(lengths: &[u64]) -> Driver {
        Driver::new(lengths.iter().enumerate().map(|(i, l)| Ok((i as u32 + 1, *l))).collect())
    }

    fn pull(&mut self) -> Option<Result<Opened<u32>, Error>> {
        self.pulls += 1;
        match self.source.pop_front() {
            None => None,
            Some(Err(text)) => Some(Err(Error::new(ErrorKind::NotFound, text))),
            Some(Ok((file, length))) => {
                Some(Ok(Opened { file, path: PathBuf::from(format!("file{}", file)), length }))
            }
        }
    }

    fn drive(&mut self, mut turn: Turn<u32>) -> Ended {
        loop {
            if let Some(retired) = turn.retired.take() {
                if let Some(advice) = retired.advice {
                    self.given.push((retired.file, advice));
                }
                self.released.push(retired.file);
            }
            for hint in turn.hints.iter() {
                let file = *self.core.file(hint.index).expect("a hint names an open file");
                self.given.push((file, hint.advice));
            }
            match turn.status {
                Status::Pull => {
                    let item = self.pull();
                    turn = self.core.supply(item);
                }
                Status::Idle => return Ended::Idle,
                Status::File => {
                    let reader = self.core.reader().expect("a file was handed out");
                    return Ended::File(*reader.file());
                }
                Status::Failed(e) => return Ended::Failed(e.to_string()),
                Status::End => return Ended::End,
            }
        }
    }

    fn next(&mut self) -> Ended {
        let turn = self.core.next();
        self.drive(turn)
    }

    fn read(&mut self, bytes: usize) -> Ended {
        let turn = self.core.reader().expect("a file is being read").read(&Ok(bytes));
        self.drive(turn)
    }

    fn fail_read(&mut self) -> Ended {
        let result = Err(Error::new(ErrorKind::Other, "read failed"));
        let turn = self.core.reader().expect("a file is being read").read(&result);
        self.drive(turn)
    }

    fn take_given(&mut self) -> Vec<(u32, Advice)> {
        std::mem::take(&mut self.given)
    }
}

fn sequential(file: u32) -> (u32, Advice) {
    (file, Advice { kind: AdviceKind::Sequential, offset: 0, len: 0 })
}

fn will_need(file: u32, offset: u64, len: u64) -> (u32, Advice) {
    (file, Advice { kind: AdviceKind::WillNeed, offset, len })
}

fn dont_need(file: u32, offset: u64, len: u64) -> (u32, Advice) {
    (file, Advice { kind: AdviceKind::DontNeed, offset, len })
}

#[test]
fn empty_source_ends_at_once() {
    let mut d = Driver::files(&[]);
    assert_eq!(d.next(), Ended::End);
    assert_eq!(d.pulls, 2);
    assert!(d.given.is_empty());
    assert!(d.core.reader().is_none());
    assert_eq!(d.next(), Ended::End);
}

#[test]
fn first_turn_of_next_asks_for_a_file() {
    let mut core: MultiFileReadahead<u32> = MultiFileReadahead::new();
    let turn = core.next();
    assert!(matches!(turn.status, Status::Pull));
    assert!(turn.hints.is_empty());
    assert!(turn.retired.is_none());
    assert!(core.file(0).is_none());
}

#[test]
fn three_files_with_an_empty_one_in_the_middle() {
    let mut d = Driver::files(&[100 * KIB, 0, 50 * KIB]);
    assert_eq!(d.next(), Ended::File(1));
    assert_eq!(
        d.take_given(),
        vec![
            sequential(1),
            will_need(1, 0, 100 * KIB),
            sequential(2),
            sequential(3),
            will_need(3, 0, 50 * KIB),
        ]
    );
    assert_eq!(d.pulls, 4);
    assert_eq!(d.core.file(0), Some(&1));
    assert_eq!(d.core.file(1), Some(&2));
    assert_eq!(d.core.file(2), Some(&3));
    assert_eq!(d.core.file(3), None);
    assert_eq!(d.read(100 * KIB as usize), Ended::Idle);
    assert_eq!(d.read(0), Ended::Idle);
    assert_eq!(d.next(), Ended::File(2));
    assert_eq!(d.released, vec![1]);
    assert_eq!(d.read(0), Ended::Idle);
    assert_eq!(d.next(), Ended::File(3));
    assert_eq!(d.read(50 * KIB as usize), Ended::Idle);
    assert_eq!(d.next(), Ended::End);
    assert_eq!(d.released, vec![1, 2, 3]);
    assert_eq!(d.take_given(), vec![]);
    assert_eq!(d.core.file(0), None);
}

#[test]
fn second_path_fails_to_open() {
    let mut d = Driver::new(vec![Ok((1, 10 * KIB)), Err("no such file"), Ok((3, 20 * KIB))]);
    assert_eq!(d.next(), Ended::File(1));
    assert_eq!(d.take_given(), vec![sequential(1), will_need(1, 0, 10 * KIB)]);
    assert_eq!(d.pulls, 2);
    assert_eq!(d.read(10 * KIB as usize), Ended::Idle);
    assert_eq!(d.next(), Ended::Failed("no such file".to_string()));
    assert_eq!(d.take_given(), vec![sequential(3), will_need(3, 0, 20 * KIB)]);
    assert!(d.core.reader().is_none());
    assert_eq!(d.core.file(0), Some(&3));
    assert_eq!(d.next(), Ended::File(3));
    assert_eq!(d.released, vec![1]);
    assert_eq!(d.next(), Ended::End);
    assert_eq!(d.released, vec![1, 3]);
}

#[test]
fn first_path_fails_to_open() {
    let mut d = Driver::new(vec![Err("first"), Ok((2, 10))]);
    assert_eq!(d.next(), Ended::Failed("first".to_string()));
    assert_eq!(d.pulls, 1);
    assert!(d.given.is_empty());
    assert_eq!(d.next(), Ended::File(2));
    assert_eq!(d.take_given(), vec![sequential(2), will_need(2, 0, 10)]);
    assert_eq!(d.next(), Ended::End);
}

#[test]
fn errors_and_files_come_in_source_order() {
    let mut d = Driver::new(vec![
        Err("a"),
        Err("b"),
        Ok((3, 5)),
        Err("d"),
        Ok((5, 0)),
        Ok((6, 7)),
        Err("g"),
    ]);
    let mut seen = Vec::new();
    loop {
        let ended = d.next();
        if ended == Ended::End {
            break;
        }
        seen.push(ended);
    }
    assert_eq!(
        seen,
        vec![
            Ended::Failed("a".to_string()),
            Ended::Failed("b".to_string()),
            Ended::File(3),
            Ended::Failed("d".to_string()),
            Ended::File(5),
            Ended::File(6),
            Ended::Failed("g".to_string()),
        ]
    );
    assert_eq!(d.released, vec![3, 5, 6]);
}

#[test]
fn hints_given_with_an_error_name_the_right_files() {
    let mut d = Driver::new(vec![
        Ok((1, 8 * MIB)),
        Err("second"),
        Ok((3, MIB)),
        Ok((4, MIB)),
    ]);
    assert_eq!(d.next(), Ended::File(1));
    assert_eq!(d.take_given(), vec![sequential(1), will_need(1, 0, 8 * MIB)]);
    assert_eq!(d.pulls, 1);
    assert_eq!(d.read(8 * MIB as usize), Ended::Idle);
    assert_eq!(d.pulls, 2);
    assert_eq!(d.take_given(), vec![]);
    assert_eq!(d.next(), Ended::Failed("second".to_string()));
    assert_eq!(
        d.take_given(),
        vec![sequential(3), will_need(3, 0, MIB), sequential(4), will_need(4, 0, MIB)]
    );
    assert_eq!(d.next(), Ended::File(3));
    assert_eq!(d.next(), Ended::File(4));
    assert_eq!(d.next(), Ended::End);
}

#[test]
fn readahead_waits_until_half_the_budget_is_read() {
    let mut d = Driver::files(&[100 * MIB]);
    assert_eq!(d.next(), Ended::File(1));
    assert_eq!(d.take_given(), vec![sequential(1), will_need(1, 0, DEFAULT_BUDGET)]);
    assert_eq!(d.pulls, 1);
    for _ in 0..3 {
        assert_eq!(d.read(MIB as usize), Ended::Idle);
        assert_eq!(d.take_given(), vec![]);
    }
    assert_eq!(d.read(MIB as usize - 1), Ended::Idle);
    assert_eq!(d.take_given(), vec![]);
    assert_eq!(d.read(1), Ended::Idle);
    assert_eq!(d.take_given(), vec![will_need(1, 8 * MIB, 4 * MIB)]);
    assert_eq!(d.read(MIB as usize), Ended::Idle);
    assert_eq!(d.take_given(), vec![]);
    assert_eq!(d.pulls, 1);
}

#[test]
fn saturated_scheduler_gives_no_hint() {
    let mut d = Driver::files(&[8 * MIB, MIB]);
    assert_eq!(d.next(), Ended::File(1));
    assert_eq!(d.take_given(), vec![sequential(1), will_need(1, 0, 8 * MIB)]);
    assert_eq!(d.pulls, 1);
    assert_eq!(d.read(0), Ended::Idle);
    assert_eq!(d.fail_read(), Ended::Idle);
    assert_eq!(d.take_given(), vec![]);
    assert_eq!(d.pulls, 1);
}

#[test]
fn exact_fit_is_asked_for_in_one_pass() {
    let mut d = Driver::files(&[DEFAULT_BUDGET, 4 * MIB]);
    assert_eq!(d.next(), Ended::File(1));
    assert_eq!(d.take_given(), vec![sequential(1), will_need(1, 0, DEFAULT_BUDGET)]);
    assert_eq!(d.read(4 * MIB as usize), Ended::Idle);
    assert_eq!(d.take_given(), vec![sequential(2), will_need(2, 0, 4 * MIB)]);
    assert_eq!(d.read(4 * MIB as usize), Ended::Idle);
    assert_eq!(d.take_given(), vec![]);
    assert_eq!(d.pulls, 3);
}

#[test]
fn budget_is_spread_over_the_queue_front_first() {
    let mut d = Driver::files(&[3 * MIB, 3 * MIB + 100, 3 * MIB, MIB]);
    assert_eq!(d.next(), Ended::File(1));
    assert_eq!(
        d.take_given(),
        vec![
            sequential(1),
            will_need(1, 0, 3 * MIB),
            sequential(2),
            will_need(2, 0, 3 * MIB + 100),
            sequential(3),
            will_need(3, 0, 2 * MIB - PREFETCH_BLOCK),
        ]
    );
    assert_eq!(d.pulls, 3);
    assert_eq!(d.read(3 * MIB as usize), Ended::Idle);
    assert_eq!(d.take_given(), vec![]);
    assert_eq!(d.next(), Ended::File(2));
    assert_eq!(d.take_given(), vec![]);
    assert_eq!(d.read((MIB - 65436 - 1) as usize), Ended::Idle);
    assert_eq!(d.take_given(), vec![]);
    assert_eq!(d.read(1), Ended::Idle);
    assert_eq!(
        d.take_given(),
        vec![
            will_need(3, 2 * MIB - PREFETCH_BLOCK, MIB + PREFETCH_BLOCK),
            sequential(4),
            will_need(4, 0, MIB),
        ]
    );
    assert_eq!(d.pulls, 5);
    assert_eq!(d.read(PREFETCH_BLOCK as usize), Ended::Idle);
    assert_eq!(d.take_given(), vec![]);
}

#[test]
fn overshoot_stays_below_one_block() {
    let mut d = Driver::files(&[100, 100 * MIB]);
    assert_eq!(d.next(), Ended::File(1));
    assert_eq!(
        d.take_given(),
        vec![
            sequential(1),
            will_need(1, 0, 100),
            sequential(2),
            will_need(2, 0, DEFAULT_BUDGET - PREFETCH_BLOCK),
        ]
    );
    let mut asked: u64 = DEFAULT_BUDGET - PREFETCH_BLOCK + 100;
    let mut read: u64 = 0;
    assert_eq!(d.read(100), Ended::Idle);
    read += 100;
    assert_eq!(d.next(), Ended::File(2));
    for step in 0..2000u64 {
        let bytes = 1000 + 977 * (step % 13);
        assert_eq!(d.read(bytes as usize), Ended::Idle);
        read += bytes;
        for (_, advice) in d.take_given() {
            assert_eq!(advice.kind, AdviceKind::WillNeed);
            assert_eq!(advice.offset, asked - 100);
            asked += advice.len;
        }
        assert!(asked >= read);
        assert!(asked - read < DEFAULT_BUDGET + PREFETCH_BLOCK);
    }
}

#[test]
fn dropbehind_flushes_each_block_and_the_rest_at_retirement() {
    let mut d = Driver::files(&[MIB]);
    d.core.dropbehind(true);
    assert_eq!(d.next(), Ended::File(1));
    assert_eq!(d.take_given(), vec![sequential(1), will_need(1, 0, MIB)]);
    assert_eq!(d.read(DROPBEHIND_BLOCK as usize - 1), Ended::Idle);
    assert_eq!(d.take_given(), vec![]);
    assert_eq!(d.read(1), Ended::Idle);
    assert_eq!(d.take_given(), vec![dont_need(1, 0, DROPBEHIND_BLOCK)]);
    assert_eq!(d.read(100 * KIB as usize), Ended::Idle);
    assert_eq!(d.take_given(), vec![]);
    assert_eq!(d.next(), Ended::End);
    assert_eq!(d.take_given(), vec![dont_need(1, 0, 0)]);
    assert_eq!(d.released, vec![1]);
}

#[test]
fn dropbehind_leaves_nothing_to_flush_after_a_whole_block() {
    let mut d = Driver::files(&[DROPBEHIND_BLOCK]);
    d.core.dropbehind(true);
    assert_eq!(d.next(), Ended::File(1));
    d.take_given();
    assert_eq!(d.read(DROPBEHIND_BLOCK as usize), Ended::Idle);
    assert_eq!(d.take_given(), vec![dont_need(1, 0, DROPBEHIND_BLOCK)]);
    assert_eq!(d.next(), Ended::End);
    assert_eq!(d.take_given(), vec![]);
}

#[test]
fn without_dropbehind_no_eviction_hint_is_given() {
    let mut d = Driver::files(&[2 * MIB]);
    assert_eq!(d.next(), Ended::File(1));
    d.take_given();
    assert_eq!(d.read(2 * MIB as usize), Ended::Idle);
    assert_eq!(d.next(), Ended::End);
    assert_eq!(d.take_given(), vec![]);
    assert_eq!(d.released, vec![1]);
}

#[test]
fn dropbehind_can_be_turned_off_again() {
    let mut d = Driver::files(&[2 * MIB]);
    d.core.dropbehind(true);
    assert_eq!(d.next(), Ended::File(1));
    d.take_given();
    assert_eq!(d.read(100), Ended::Idle);
    d.core.dropbehind(false);
    assert_eq!(d.read(MIB as usize), Ended::Idle);
    assert_eq!(d.take_given(), vec![]);
    assert_eq!(d.next(), Ended::End);
    assert_eq!(d.take_given(), vec![dont_need(1, 0, 0)]);
}

#[test]
fn failed_read_changes_no_position() {
    let mut d = Driver::files(&[MIB]);
    d.core.dropbehind(true);
    assert_eq!(d.next(), Ended::File(1));
    d.take_given();
    assert_eq!(d.read(1000), Ended::Idle);
    assert_eq!(d.fail_read(), Ended::Idle);
    assert_eq!(d.core.reader().unwrap().read_pos(), 1000);
    assert_eq!(d.take_given(), vec![]);
    assert_eq!(d.core.reader().unwrap().path(), &PathBuf::from("file1"));
}

#[test]
fn failed_read_still_runs_the_scheduler() {
    let mut d = Driver::new(vec![Ok((1, 10)), Err("bad"), Ok((3, 20))]);
    assert_eq!(d.next(), Ended::File(1));
    assert_eq!(d.take_given(), vec![sequential(1), will_need(1, 0, 10)]);
    assert_eq!(d.pulls, 2);
    assert_eq!(d.fail_read(), Ended::Idle);
    assert_eq!(d.take_given(), vec![sequential(3), will_need(3, 0, 20)]);
    assert_eq!(d.pulls, 4);
    assert_eq!(d.core.reader().unwrap().read_pos(), 0);
}

#[test]
fn reader_tells_path_file_and_position() {
    let mut d = Driver::files(&[MIB, MIB]);
    assert_eq!(d.next(), Ended::File(1));
    {
        let reader = d.core.reader().unwrap();
        assert_eq!(reader.path(), &PathBuf::from("file1"));
        assert_eq!(*reader.file(), 1);
        assert_eq!(reader.read_pos(), 0);
    }
    assert_eq!(d.read(12345), Ended::Idle);
    assert_eq!(d.core.reader().unwrap().read_pos(), 12345);
    assert_eq!(d.next(), Ended::File(2));
    let reader = d.core.reader().unwrap();
    assert_eq!(reader.path(), &PathBuf::from("file2"));
    assert_eq!(reader.read_pos(), 0);
}

#[test]
fn no_reader_before_the_first_file_and_after_an_error() {
    let mut d = Driver::new(vec![Err("x"), Ok((2, 1))]);
    assert!(d.core.reader().is_none());
    assert_eq!(d.next(), Ended::Failed("x".to_string()));
    assert!(d.core.reader().is_none());
    assert_eq!(d.next(), Ended::File(2));
    assert!(d.core.reader().is_some());
    assert_eq!(d.next(), Ended::End);
    assert!(d.core.reader().is_none());
}

#[test]
fn read_past_the_readahead_restarts_at_the_read_position() {
    let mut d = Driver::files(&[100 * MIB]);
    assert_eq!(d.next(), Ended::File(1));
    d.take_given();
    assert_eq!(d.read(20 * MIB as usize), Ended::Idle);
    assert_eq!(d.take_given(), vec![will_need(1, 20 * MIB, 8 * MIB)]);
}

#[test]
fn read_to_the_end_past_the_readahead_asks_for_nothing_more() {
    let mut d = Driver::files(&[10 * MIB]);
    assert_eq!(d.next(), Ended::File(1));
    assert_eq!(d.take_given(), vec![sequential(1), will_need(1, 0, 8 * MIB)]);
    assert_eq!(d.read(10 * MIB as usize), Ended::Idle);
    assert_eq!(d.take_given(), vec![]);
    assert_eq!(d.pulls, 2);
}

#[test]
fn lookahead_stops_past_max_open() {
    let mut d = Driver::files(&vec![0u64; 600]);
    assert_eq!(d.next(), Ended::File(1));
    assert_eq!(d.pulls, MAX_OPEN + 1);
    assert_eq!(d.core.file(MAX_OPEN), Some(&(MAX_OPEN as u32 + 1)));
    assert_eq!(d.core.file(MAX_OPEN + 1), None);
    assert_eq!(d.take_given().len(), MAX_OPEN + 1);
    assert_eq!(d.read(0), Ended::Idle);
    assert_eq!(d.pulls, MAX_OPEN + 1);
    assert_eq!(d.next(), Ended::File(2));
    assert_eq!(d.pulls, MAX_OPEN + 2);
    assert_eq!(d.core.file(MAX_OPEN), Some(&(MAX_OPEN as u32 + 2)));
    assert_eq!(d.core.file(MAX_OPEN + 1), None);
    let mut count = 2;
    while d.next() != Ended::End {
        count += 1;
        assert!(d.core.file(MAX_OPEN + 1).is_none());
    }
    assert_eq!(count, 600);
    assert_eq!(d.released.len(), 600);
}

#[test]
fn an_open_failure_stops_the_lookahead_for_this_pass() {
    let mut d = Driver::new(vec![Ok((1, 10)), Err("bad"), Ok((3, 10))]);
    assert_eq!(d.next(), Ended::File(1));
    assert_eq!(d.pulls, 2);
    assert_eq!(d.core.file(0), Some(&1));
    assert_eq!(d.core.file(1), None);
    assert_eq!(d.core.file(2), None);
    assert_eq!(d.read(1), Ended::Idle);
    assert_eq!(d.pulls, 4);
    assert_eq!(d.core.file(1), None);
    assert_eq!(d.core.file(2), Some(&3));
    assert_eq!(d.core.file(3), None);
}

#[test]
fn an_item_nobody_asked_for_is_taken_in() {
    let mut core: MultiFileReadahead<u32> = MultiFileReadahead::new();
    let turn = core.supply(Some(Ok(Opened { file: 9, path: PathBuf::from("p"), length: 100 })));
    assert!(matches!(turn.status, Status::Idle));
    assert_eq!(turn.hints.len(), 1);
    assert_eq!(turn.hints[0].index, 0);
    assert_eq!(turn.hints[0].advice, Advice { kind: AdviceKind::Sequential, offset: 0, len: 0 });
    assert!(turn.retired.is_none());
    assert_eq!(core.file(0), Some(&9));
    assert!(core.reader().is_none());
    let turn = core.supply(None);
    assert!(matches!(turn.status, Status::Idle));
    assert!(turn.hints.is_empty());
    let turn = core.next();
    assert!(matches!(turn.status, Status::Pull));
    assert_eq!(turn.hints.len(), 1);
    assert_eq!(turn.hints[0].index, 0);
    assert_eq!(turn.hints[0].advice, Advice { kind: AdviceKind::WillNeed, offset: 0, len: 100 });
    let turn = core.supply(None);
    assert!(matches!(turn.status, Status::File));
    assert_eq!(*core.reader().unwrap().file(), 9);
}

#[test]
fn a_new_next_drops_a_suspended_pass() {
    let mut core: MultiFileReadahead<u32> = MultiFileReadahead::new();
    assert!(matches!(core.next().status, Status::Pull));
    assert!(matches!(core.next().status, Status::Pull));
    let turn = core.supply(Some(Err(Error::new(ErrorKind::PermissionDenied, "denied"))));
    match turn.status {
        Status::Failed(e) => assert_eq!(e.kind(), ErrorKind::PermissionDenied),
        other => panic!("unexpected status {:?}", other),
    }
    assert!(core.file(0).is_none());
}

#[test]
fn retired_file_carries_its_path() {
    let mut core: MultiFileReadahead<u32> = MultiFileReadahead::new();
    core.next();
    core.supply(Some(Ok(Opened { file: 4, path: PathBuf::from("dir/name"), length: 0 })));
    let turn = core.supply(None);
    assert!(matches!(turn.status, Status::File));
    let turn = core.next();
    let retired = turn.retired.expect("the file was retired");
    assert_eq!(retired.file, 4);
    assert_eq!(retired.path, PathBuf::from("dir/name"));
    assert_eq!(retired.advice, None);
    assert!(matches!(turn.status, Status::Pull));
}

#[test]
fn in_place_update_reaches_the_right_slot() {
    let mut d = Driver::files(&[0, 100 * MIB, MIB]);
    assert_eq!(d.next(), Ended::File(1));
    assert_eq!(
        d.take_given(),
        vec![sequential(1), sequential(2), will_need(2, 0, DEFAULT_BUDGET)]
    );
    assert_eq!(d.read(0), Ended::Idle);
    assert_eq!(d.take_given(), vec![]);
    assert_eq!(d.next(), Ended::File(2));
    assert_eq!(d.take_given(), vec![]);
    assert_eq!(d.read(5 * MIB as usize), Ended::Idle);
    assert_eq!(d.take_given(), vec![will_need(2, 8 * MIB, 5 * MIB)]);
    assert_eq!(d.core.reader().unwrap().read_pos(), 5 * MIB);
}

#[test]
fn path_and_file_of_a_slot() {
    let mut d = Driver::new(vec![Ok((1, 10)), Err("bad"), Ok((3, 10))]);
    assert_eq!(d.core.path(0), None);
    assert_eq!(d.next(), Ended::File(1));
    assert_eq!(d.read(0), Ended::Idle);
    assert_eq!(d.core.path(0), Some(&PathBuf::from("file1")));
    assert_eq!(d.core.path(1), None);
    assert_eq!(d.core.path(2), Some(&PathBuf::from("file3")));
    assert_eq!(d.core.path(3), None);
    assert_eq!(d.core.file(2), Some(&3));
}
