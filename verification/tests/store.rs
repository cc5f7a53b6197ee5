//! The files of the state.

use std::collections::{HashMap, HashSet};

use ember::error::Error;
use ember::procedure::{action_at, first, next, Position, Step};
use ember::store::{
    is_absent, lock_path_for, reads_without_lock, tmp_path_for, Fault, StateStore, StoreAction,
};

/// Files and directories that are only here.
#[derive(Default)]
struct Memory {
    files: HashMap<String, String>,
    dirs: HashSet<String>,
    locked: HashSet<String>,
}

fn parent(path: &str) -> &str {
    path.rsplit_once('/').unwrap().0
}

/// Why carrying out some steps came to nothing.
#[derive(Debug)]
enum Stop {
    Refused(Error),
    NotFound,
    Locked,
}

/// What carrying out some steps has in hand.
#[derive(Default)]
struct Hand {
    seen: Option<String>,
    value: String,
}

impl Memory {
    fn make_dir(&mut self, dir: &str) {
        for (i, c) in dir.char_indices() {
            if c == '/' && i > 0 {
                self.dirs.insert(dir[..i].to_string());
            }
        }
        self.dirs.insert(dir.to_string());
    }

    fn perform(
        &mut self,
        action: &StoreAction,
        hand: &mut Hand,
        change: &dyn Fn(Option<&str>) -> String,
    ) -> Result<(), Stop> {
        match action {
            StoreAction::MakeDir(p) => self.make_dir(p),
            StoreAction::MakeParent(p) => self.make_dir(parent(p)),
            StoreAction::TouchFile(p) => {
                self.files.entry(p.clone()).or_default();
            }
            StoreAction::LockExclusive(p) => {
                assert!(self.dirs.contains(parent(p)), "no directory for {p}");
                if !self.locked.insert(p.clone()) {
                    return Err(Stop::Locked);
                }
                self.files.insert(p.clone(), String::new());
            }
            StoreAction::LockShared(p) => {
                if !self.files.contains_key(p) {
                    assert!(reads_without_lock(Fault::NotFound));
                }
            }
            StoreAction::Read(p) => {
                hand.seen = self.files.get(p).cloned();
                if hand.seen.is_none() {
                    return Err(Stop::NotFound);
                }
            }
            StoreAction::ReadIfThere(p) | StoreAction::ReadOrDefault(p) => {
                hand.seen = self.files.get(p).cloned();
            }
            StoreAction::ReadExisting(p) => {
                hand.seen = self.files.get(p).cloned();
                if hand.seen.is_none() {
                    return Err(Stop::Refused(action.refusal().unwrap()));
                }
            }
            StoreAction::RefuseExisting(p) => {
                if self.files.contains_key(p) {
                    return Err(Stop::Refused(action.refusal().unwrap()));
                }
            }
            StoreAction::Change => hand.value = change(hand.seen.as_deref()),
            StoreAction::WriteFile(p) => {
                assert!(self.dirs.contains(parent(p)), "no directory for {p}");
                self.files.insert(p.clone(), hand.value.clone());
            }
            StoreAction::Rename(p, q) => {
                let text = self.files.remove(p).unwrap();
                self.files.insert(q.clone(), text);
            }
            StoreAction::RemoveFile(p) => {
                if self.files.remove(p).is_none() {
                    assert!(is_absent(Fault::NotFound));
                }
            }
            StoreAction::RemoveDir(p) => {
                let below = format!("{p}/");
                self.files.retain(|f, _| !f.starts_with(&below));
                self.dirs.retain(|d| d != p && !d.starts_with(&below));
            }
        }
        Ok(())
    }

    /// Carries out the steps. Locks that this took are free again behind it.
    fn carry_out(
        &mut self,
        steps: Vec<Step<StoreAction>>,
        value: &str,
        change: &dyn Fn(Option<&str>) -> String,
    ) -> Result<Option<String>, Stop> {
        let mut hand = Hand {
            seen: None,
            value: value.to_string(),
        };
        let mut outcome = Ok(());
        let mut at = first(&steps);
        while let Some(p) = at {
            let did = self.perform(action_at(&steps, p), &mut hand, change);
            let ok = did.is_ok();
            if let (Err(e), Position::Step(_)) = (did, p) {
                outcome = Err(e);
            }
            at = next(&steps, p, ok);
        }
        for step in &steps {
            if let StoreAction::LockExclusive(p) = &step.action {
                self.locked.remove(p);
            }
        }
        outcome.map(|()| hand.seen)
    }

    fn create(&mut self, store: &StateStore, path: &str, value: &str) -> Result<(), Stop> {
        let steps = store.create(path, 7);
        self.carry_out(steps, value, &|_| unreachable!()).map(|_| ())
    }

    fn read(&mut self, store: &StateStore, path: &str) -> Result<String, Stop> {
        let steps = store.read(path);
        self.carry_out(steps, "", &|_| unreachable!()).map(|t| t.unwrap())
    }
}

fn setting() -> (Memory, StateStore) {
    (Memory::default(), StateStore::new("/state".to_string()))
}

#[test]
fn create_rejects_existing() {
    let (mut m, store) = setting();
    let path = "/state/once.json";

    m.create(&store, path, "1").unwrap();
    let err = m.create(&store, path, "2").unwrap_err();
    assert!(matches!(err, Stop::Refused(Error::AlreadyExists { .. })));

    // The original value is untouched.
    assert_eq!(m.read(&store, path).unwrap(), "1");
}

#[test]
fn update_errors_on_missing() {
    let (mut m, store) = setting();
    let steps = store.update("/state/missing.json", 7);
    let err = m.carry_out(steps, "", &|_| "1".to_string()).unwrap_err();
    assert!(matches!(err, Stop::Refused(Error::State(_))));
}

#[test]
fn update_with_seeds_default_then_persists() {
    let (mut m, store) = setting();
    let path = "/state/acc.json";

    // First call materializes from the default.
    let steps = store.update_with(path, 7);
    m.carry_out(steps, "", &|old| format!("{},2", old.unwrap_or("1")))
        .unwrap();
    // Second call reads back and appends.
    let steps = store.update_with(path, 8);
    m.carry_out(steps, "", &|old| format!("{},3", old.unwrap_or("")))
        .unwrap();

    assert_eq!(m.read(&store, path).unwrap(), "1,2,3");
}

/// Eight writers, each of which does its next step whenever it can, count to
/// four hundred.
#[test]
fn concurrent_updates_do_not_lose_increments() {
    const THREADS: usize = 8;
    const PER_THREAD: u64 = 50;
    let (mut m, store) = setting();
    let path = "/state/counter.json";
    m.create(&store, path, "0").unwrap();

    struct Writer {
        steps: Vec<Step<StoreAction>>,
        at: Option<Position>,
        hand: Hand,
        left: u64,
    }
    let mut writers: Vec<Writer> = (0..THREADS)
        .map(|i| Writer {
            steps: store.update(path, 100 + i as u32),
            at: Some(Position::Step(0)),
            hand: Hand::default(),
            left: PER_THREAD,
        })
        .collect();
    let change = |old: Option<&str>| (old.unwrap().parse::<u64>().unwrap() + 1).to_string();
    while writers.iter().any(|w| w.left > 0) {
        for w in writers.iter_mut().filter(|w| w.left > 0) {
            let p = w.at.unwrap();
            let action = action_at(&w.steps, p);
            match m.perform(action, &mut w.hand, &change) {
                Err(Stop::Locked) => {}
                Err(e) => panic!("{e:?}"),
                Ok(()) => {
                    w.at = next(&w.steps, p, true);
                    if w.at.is_none() {
                        m.locked.remove(&lock_path_for(path));
                        w.left -= 1;
                        w.at = first(&w.steps);
                    }
                }
            }
        }
    }
    let total = THREADS as u64 * PER_THREAD;
    assert_eq!(m.read(&store, path).unwrap(), total.to_string());
}

#[test]
fn concurrent_creates_have_exactly_one_winner() {
    const THREADS: usize = 16;
    let (mut m, store) = setting();
    let path = "/state/unique.json";
    let plans: Vec<Vec<Step<StoreAction>>> =
        (0..THREADS).map(|i| store.create(path, i as u32)).collect();
    let mut hands: Vec<Hand> = (0..THREADS)
        .map(|i| Hand {
            seen: None,
            value: i.to_string(),
        })
        .collect();
    let mut at: Vec<Option<Position>> = plans.iter().map(first).collect();
    let mut winners = 0;
    while at.iter().any(|p| p.is_some()) {
        for i in 0..THREADS {
            let Some(p) = at[i] else { continue };
            match m.perform(action_at(&plans[i], p), &mut hands[i], &|_| unreachable!()) {
                Err(Stop::Locked) => {}
                done => {
                    at[i] = next(&plans[i], p, done.is_ok());
                    if at[i].is_none() {
                        winners += if done.is_ok() { 1 } else { 0 };
                        m.locked.remove(&lock_path_for(path));
                    }
                }
            }
        }
    }
    assert_eq!(winners, 1);
}

#[test]
fn lock_vm_distinct_names_are_independent() {
    // Different names must be lockable at the same time (no global lock).
    let (mut m, store) = setting();
    let mut hand = Hand::default();
    for name in ["alpha", "beta"] {
        for step in store.lock_vm(name) {
            m.perform(&step.action, &mut hand, &|_| unreachable!()).unwrap();
        }
    }
    assert_eq!(m.locked.len(), 2);
    let again = store.lock_vm("alpha");
    let locked = m.perform(&again[1].action, &mut hand, &|_| unreachable!());
    assert!(matches!(locked, Err(Stop::Locked)));
}

#[test]
fn tmp_path_contains_pid() {
    let path = "/var/lib/ember/config.json";
    let tmp = tmp_path_for(path, 4711);
    assert!(tmp.starts_with("/var/lib/ember/config.json.tmp."));
    assert!(tmp.contains(&4711.to_string()));
}

#[test]
fn lock_path_has_lock_extension() {
    let path = "/var/lib/ember/config.json";
    let lock = lock_path_for(path);
    assert_eq!(lock, "/var/lib/ember/config.json.lock");
}

#[test]
fn round_trip_read_write() {
    let (mut m, store) = setting();
    let data = r#"{"key":"value"}"#;
    let path = "/state/test.json";
    m.create(&store, path, data).unwrap();
    assert_eq!(m.read(&store, path).unwrap(), data);
}

#[test]
fn read_optional_returns_none_for_missing() {
    let (mut m, store) = setting();
    let steps = store.read_optional("/state/nonexistent.json");
    let result = m.carry_out(steps, "", &|_| unreachable!()).unwrap();
    assert!(result.is_none());
    assert!(matches!(m.read(&store, "/state/nonexistent.json"), Err(Stop::NotFound)));
}

#[test]
fn read_optional_returns_some_for_existing() {
    let (mut m, store) = setting();
    let path = "/state/list.json";
    m.create(&store, path, "[1,2,3]").unwrap();
    let steps = store.read_optional(path);
    let loaded = m.carry_out(steps, "", &|_| unreachable!()).unwrap();
    assert_eq!(loaded, Some("[1,2,3]".to_string()));
}

#[test]
fn init_creates_directory_structure() {
    let (mut m, store) = setting();
    m.carry_out(store.init(), "", &|_| unreachable!()).unwrap();

    assert!(m.dirs.contains("/state/kernels"));
    assert!(m.dirs.contains("/state/images"));
    assert!(m.dirs.contains("/state/vms"));
    assert!(m.dirs.contains("/state/network"));
}

#[test]
fn remove_idempotent() {
    let (mut m, store) = setting();
    let path = "/state/gone.json";
    // Removing a nonexistent file should succeed.
    m.carry_out(store.remove(path), "", &|_| unreachable!()).unwrap();

    // Write then remove.
    m.create(&store, path, "hello").unwrap();
    assert!(m.files.contains_key(path));
    m.carry_out(store.remove(path), "", &|_| unreachable!()).unwrap();
    assert!(!m.files.contains_key(path));
    // Removing again should still succeed.
    m.carry_out(store.remove(path), "", &|_| unreachable!()).unwrap();
}

#[test]
fn remove_dir_idempotent() {
    let (mut m, store) = setting();
    let vm_dir = "/state/vms/testvm";
    m.create(&store, "/state/vms/testvm/vm.json", "{}").unwrap();

    m.carry_out(store.remove_dir(vm_dir), "", &|_| unreachable!()).unwrap();
    assert!(!m.dirs.contains(vm_dir));
    assert!(!m.files.contains_key("/state/vms/testvm/vm.json"));
    // Second call should not error.
    m.carry_out(store.remove_dir(vm_dir), "", &|_| unreachable!()).unwrap();
}

#[test]
fn write_creates_parent_dirs() {
    let (mut m, store) = setting();
    let path = "/state/deep/nested/file.json";
    m.create(&store, path, "42").unwrap();
    assert_eq!(m.read(&store, path).unwrap(), "42");
    let steps = store.write(path, 9);
    m.carry_out(steps, "43", &|_| unreachable!()).unwrap();
    assert_eq!(m.read(&store, path).unwrap(), "43");
    assert!(!m.files.contains_key(&tmp_path_for(path, 9)));
}

#[test]
fn faults_that_do_not_stop_a_reader() {
    assert!(reads_without_lock(Fault::PermissionDenied));
    assert!(!reads_without_lock(Fault::Other));
    assert!(!is_absent(Fault::PermissionDenied));
    assert!(!is_absent(Fault::Other));
}

#[test]
fn path_helpers() {
    let store = StateStore::new("/var/lib/ember".to_string());

    assert_eq!(store.vm_dir("myvm"), "/var/lib/ember/vms/myvm");
    assert_eq!(
        store.vm_metadata_path("myvm"),
        "/var/lib/ember/vms/myvm/vm.json"
    );
    assert_eq!(
        store.image_registry_path(),
        "/var/lib/ember/images/registry.json"
    );
    assert_eq!(
        store.network_allocations_path(),
        "/var/lib/ember/network/allocations.json"
    );
    assert_eq!(store.config_path(), "/var/lib/ember/config.json");
    assert_eq!(store.kernel_dir(), "/var/lib/ember/kernels");
    assert_eq!(
        store.vm_lock_path("myvm"),
        "/var/lib/ember/locks/myvm.lock"
    );
}
