use zeron::files::MAX_BYTES;
use zeron::open::{FileId, OpenEvent, OpenStep, Opened};

/// Two processes and the log directory that they share. A file goes by its place in
/// `files`, which holds its size and the process that has locked it.
struct Directory {
    daily: Option<usize>,
    files: Vec<(u64, Option<usize>)>,
    steps: [OpenStep; 2],
    handles: [Option<usize>; 2],
}

fn id(file: usize) -> FileId {
    FileId { device: 1, inode: file as u64 }
}

impl Directory {
    fn new(size: u64) -> Directory {
        Directory {
            daily: Some(0),
            files: vec![(size, None)],
            steps: [OpenStep::first(); 2],
            handles: [None; 2],
        }
    }

    fn advance(&mut self, me: usize) {
        let other = 1 - me;
        let event = match self.steps[me] {
            OpenStep::Open { .. } => {
                if self.daily.is_none() {
                    self.daily = Some(self.files.len());
                    self.files.push((0, None));
                }
                self.handles[me] = self.daily;
                OpenEvent::Done
            }
            OpenStep::Lock { .. } => {
                let file = self.handles[me].unwrap();
                if self.files[file].1 == Some(other) {
                    OpenEvent::Failed
                } else {
                    self.files[file].1 = Some(me);
                    OpenEvent::granted(Some(id(file)), self.daily.map(id))
                }
            }
            OpenStep::Measure => match self.daily {
                Some(file) => OpenEvent::Size(self.files[file].0),
                None => OpenEvent::Failed,
            },
            OpenStep::Rotate => {
                let mine = self.handles[me];
                assert_eq!(self.files[mine.unwrap()].1, Some(me));
                assert_eq!(self.daily, mine);
                assert!(!(self.writes(other) && self.handles[other] == self.daily));
                self.daily = None;
                self.files[mine.unwrap()].1 = None;
                self.handles[me] = None;
                OpenEvent::Done
            }
            _ => OpenEvent::Done,
        };
        self.steps[me] = self.steps[me].next(event, true);
    }

    fn writes(&self, me: usize) -> bool {
        self.steps[me] == OpenStep::Done(Opened::Daily)
    }
}

#[test]
fn two_processes_never_share_a_log() {
    for size in [0, MAX_BYTES, MAX_BYTES + 1] {
        for order in 0..1u32 << 18 {
            let mut directory = Directory::new(size);
            for turn in 0..18 {
                directory.advance((order >> turn & 1) as usize);
                assert!(!(directory.writes(0) && directory.writes(1)));
                for me in 0..2 {
                    if directory.writes(me) {
                        assert_eq!(directory.handles[me], directory.daily);
                    }
                }
            }
        }
    }
}

#[test]
fn a_second_process_leaves_a_live_log_alone() {
    let mut directory = Directory::new(MAX_BYTES + 1);
    for _ in 0..9 {
        directory.advance(0);
    }
    assert!(directory.writes(0));
    assert_eq!(directory.handles[0], Some(1));
    for _ in 0..9 {
        directory.advance(1);
    }
    assert_eq!(directory.steps[1], OpenStep::Done(Opened::Overflow));
    assert_eq!(directory.daily, Some(1));
    assert_eq!(directory.files[1].1, Some(0));
}

#[test]
fn a_process_that_locks_a_rotated_log_leaves_the_fresh_one_alone() {
    let mut directory = Directory::new(MAX_BYTES + 1);
    for _ in 0..3 {
        directory.advance(0);
    }
    assert_eq!(directory.steps[0], OpenStep::Lock { fresh: false });
    for _ in 0..9 {
        directory.advance(1);
    }
    assert!(directory.writes(1));
    directory.files[1].0 = MAX_BYTES + 1;
    directory.advance(0);
    assert_eq!(directory.handles[0], Some(0));
    assert_eq!(directory.steps[0], OpenStep::Overflow);
    directory.advance(0);
    assert_eq!(directory.steps[0], OpenStep::Done(Opened::Overflow));
    assert_eq!(directory.daily, directory.handles[1]);
}
