use std::collections::BTreeMap;

use arc::cli::files::{LocalFile, Stats};
use arc::cli::transfer::{
    pull, push_tree, start_pull, start_push, Options, PullAction, PullEvent, PushAction, PushEvent,
};
use arc::proto::wire::{Command, FileHash, Reply};
use arc::sync::blake2_hex;

const PLAIN: Options = Options { delete: false, dry_run: false, whole: false, all: false };

type Files = BTreeMap<String, Vec<u8>>;

fn tree(entries: &[(&str, &[u8])]) -> Files {
    entries.iter().map(|(path, data)| (path.to_string(), data.to_vec())).collect()
}

/// A runner that keeps its files in memory, below `C:/w`.
struct Runner {
    files: Files,
    log: Vec<String>,
}

impl Runner {
    fn new(files: Files) -> Runner {
        Runner { files, log: Vec::new() }
    }

    fn rel(path: &str) -> String {
        path.strip_prefix("C:/w/").expect("a path below the root").to_string()
    }

    fn answer(&mut self, command: Command) -> Reply {
        match command {
            Command::HashFiles { root, paths } => {
                assert_eq!(root, "C:/w");
                self.log.push(format!("hash {}", paths.join(" ")));
                let hash = |p: &String| self.files.get(p).map(|data| blake2_hex(data));
                Reply::FileHashes(
                    paths.iter().map(|p| FileHash { path: p.clone(), hash: hash(p) }).collect(),
                )
            }
            Command::WriteFile { path, contents, offset } => {
                let rel = Runner::rel(&path);
                self.log.push(format!("write {rel} {offset} {}", contents.len()));
                let file = self.files.entry(rel).or_default();
                file.truncate(offset as usize);
                file.extend(contents);
                Reply::Ack
            }
            Command::ReadFile { path, offset, max_len } => {
                let data = if path == "C:/w" { &self.files["one"] } else { &self.files[&Runner::rel(&path)] };
                let end = data.len().min(offset as usize + max_len as usize);
                self.log.push(format!("read {path} {offset}"));
                Reply::FileContents(data[offset as usize..end].to_vec())
            }
            Command::ListTree { root, all } => {
                assert_eq!(root, "C:/w");
                self.log.push(format!("tree {all}"));
                Reply::Tree(self.files.keys().filter(|k| *k != "one").cloned().collect())
            }
            Command::DeleteFile { path } => {
                let rel = Runner::rel(&path);
                self.log.push(format!("delete {rel}"));
                self.files.remove(&rel);
                Reply::Ack
            }
            _ => panic!("no such command"),
        }
    }
}

fn push(local: &Files, runner: &mut Runner, options: Options) -> (Vec<String>, Stats) {
    let names: Vec<&String> = local.keys().collect();
    let files = local
        .iter()
        .map(|(rel, data)| LocalFile { rel: rel.clone(), hash: blake2_hex(data) })
        .collect();
    let mut shown = Vec::new();
    let mut turn = start_push("C:/w".to_string(), files, options);
    loop {
        shown.extend(turn.lines);
        let event = match turn.action {
            PushAction::Request(command) => PushEvent::Answer(runner.answer(command)),
            PushAction::Read(at) => PushEvent::Data(local[names[at]].clone()),
            PushAction::Done(stats) => return (shown, stats),
            _ => panic!("the push failed"),
        };
        turn = push_tree(turn.state, event);
    }
}

fn fetch(runner: &mut Runner, local: &mut Files, options: Options) -> Vec<String> {
    let mut shown = Vec::new();
    let mut made = String::new();
    let mut found: Vec<String> = Vec::new();
    let mut turn = start_pull("C:/w".to_string(), "out".to_string(), options);
    loop {
        if let Some(bytes) = turn.store {
            local.get_mut(&made).expect("a file that was made").extend(bytes);
        }
        shown.extend(turn.lines);
        let event = match turn.action {
            PullAction::Request(command) => PullEvent::Answer(runner.answer(command)),
            PullAction::Hash(at) => {
                let data = local.get(&turn.state.tree[at]);
                PullEvent::Hashed(data.map(|d| blake2_hex(d)))
            }
            PullAction::Create(at) => {
                made = at.map_or("out".to_string(), |i| turn.state.tree[i].clone());
                local.insert(made.clone(), Vec::new());
                PullEvent::Created
            }
            PullAction::Scan if local.is_empty() => PullEvent::Found(None),
            PullAction::Scan => {
                found = local.keys().cloned().collect();
                PullEvent::Found(Some(found.clone()))
            }
            PullAction::Remove(at) => {
                local.remove(&found[at]);
                PullEvent::Removed
            }
            PullAction::Done => return shown,
            PullAction::Unexpected(_) => panic!("the pull failed"),
        };
        turn = pull(turn.state, event);
    }
}

#[test]
fn push_sends_what_differs_and_deletes_what_is_gone() {
    let local = tree(&[("a", b"1"), ("b", b"22"), ("c", b"")]);
    let mut runner = Runner::new(tree(&[("a", b"1"), ("b", b"old"), ("x", b"9")]));
    let options = Options { delete: true, ..PLAIN };
    let (shown, stats) = push(&local, &mut runner, options);
    assert_eq!(shown, ["\u{2192} b (2 bytes)", "\u{2192} c (0 bytes)", "\u{2717} x"]);
    assert_eq!(stats, Stats { changed: 2, total: 3, bytes: 2, removed: 1 });
    assert_eq!(runner.files, local);
    assert_eq!(
        runner.log,
        ["hash a b c", "write b 0 2", "write c 0 0", "tree false", "delete x"]
    );
    runner.log.clear();
    let (shown, stats) = push(&local, &mut runner, PLAIN);
    assert!(shown.is_empty());
    assert_eq!(stats, Stats { changed: 0, total: 3, bytes: 0, removed: 0 });
    assert_eq!(runner.log, ["hash a b c"]);
}

#[test]
fn push_of_every_file_asks_for_no_hashes() {
    let local = tree(&[("a", b"1")]);
    let mut runner = Runner::new(local.clone());
    let (_, stats) = push(&local, &mut runner, Options { whole: true, ..PLAIN });
    assert_eq!(stats, Stats { changed: 1, total: 1, bytes: 1, removed: 0 });
    assert_eq!(runner.log, ["write a 0 1"]);
    let mut idle = Runner::new(Files::new());
    assert_eq!(push(&Files::new(), &mut idle, PLAIN).1.total, 0);
    assert!(idle.log.is_empty());
}

#[test]
fn push_of_nothing_deletes_what_is_left() {
    let there = tree(&[("a.txt", b"1")]);
    for whole in [false, true] {
        let options = Options { delete: true, whole, ..PLAIN };
        let mut runner = Runner::new(there.clone());
        let (shown, stats) = push(&Files::new(), &mut runner, options);
        assert_eq!(shown, ["\u{2717} a.txt"]);
        assert_eq!(stats, Stats { changed: 0, total: 0, bytes: 0, removed: 1 });
        assert_eq!(runner.log, ["tree false", "delete a.txt"]);
        assert!(runner.files.is_empty());
    }
    let mut runner = Runner::new(there.clone());
    let options = Options { delete: true, dry_run: true, ..PLAIN };
    let (shown, stats) = push(&Files::new(), &mut runner, options);
    assert_eq!(shown, ["would delete a.txt"]);
    assert_eq!(stats.removed, 1);
    assert_eq!(runner.files, there);
}

#[test]
fn push_cuts_long_files() {
    let size = 8 * 1024 * 1024;
    let mut local = Files::new();
    local.insert("long".to_string(), vec![3; 2 * size + 1]);
    let mut runner = Runner::new(Files::new());
    let (_, stats) = push(&local, &mut runner, PLAIN);
    assert_eq!(stats.bytes, 2 * size as u64 + 1);
    assert_eq!(runner.files, local);
    assert_eq!(runner.log.len(), 4);
    assert_eq!(runner.log[3], format!("write long {} 1", 2 * size));
}

#[test]
fn dry_push_changes_nothing() {
    let local = tree(&[("a", b"1"), ("b", b"2")]);
    let before = tree(&[("a", b"1"), ("x", b"9")]);
    let mut runner = Runner::new(before.clone());
    let options = Options { dry_run: true, delete: true, all: true, ..PLAIN };
    let (shown, stats) = push(&local, &mut runner, options);
    assert_eq!(shown, ["would push b", "would delete x"]);
    assert_eq!(stats, Stats { changed: 1, total: 2, bytes: 0, removed: 1 });
    assert_eq!(runner.files, before);
    assert_eq!(runner.log, ["hash a b", "tree true"]);
}

#[test]
fn replies_of_another_kind_stop_a_transfer() {
    let files = || vec![LocalFile { rel: "a".to_string(), hash: "1".to_string() }];
    let turn = start_push("r".to_string(), files(), PLAIN);
    let turn = push_tree(turn.state, PushEvent::Answer(Reply::Ack));
    assert!(matches!(turn.action, PushAction::Unexpected(Reply::Ack)));
    let turn = start_push("r".to_string(), files(), Options { whole: true, ..PLAIN });
    assert!(matches!(turn.action, PushAction::Read(0)));
    let turn = push_tree(turn.state, PushEvent::Data(vec![1]));
    let turn = push_tree(turn.state, PushEvent::Answer(Reply::Text("no".to_string())));
    assert!(matches!(turn.action, PushAction::Refused(Reply::Text(_))));
    let turn = start_pull("r".to_string(), "l".to_string(), PLAIN);
    let turn = pull(turn.state, PullEvent::Answer(Reply::Ack));
    assert!(matches!(turn.action, PullAction::Unexpected(Reply::Ack)));
}

#[test]
fn pull_fetches_what_differs_and_removes_what_is_gone() {
    let mut local = tree(&[("a", b"1"), ("b", b"old"), ("x", b"9")]);
    let mut runner = Runner::new(tree(&[("a", b"1"), ("b", b"22"), ("c", b"")]));
    let shown = fetch(&mut runner, &mut local, Options { delete: true, ..PLAIN });
    assert_eq!(
        shown,
        [
            "\u{2190} b",
            "\u{2190} c",
            "\u{2717} (local) x",
            "transferred 2/3 files (2 bytes), 1 deleted: C:/w -> out"
        ]
    );
    assert_eq!(local, runner.files);
    assert_eq!(runner.log, ["tree false", "hash a b c", "read C:/w/b 0", "read C:/w/c 0"]);
    runner.log.clear();
    let shown = fetch(&mut runner, &mut local, PLAIN);
    assert_eq!(shown, ["transferred 0/3 files (0 bytes): C:/w -> out"]);
}

#[test]
fn dry_pull_changes_nothing() {
    let before = tree(&[("a", b"1"), ("x", b"9")]);
    let mut local = before.clone();
    let mut runner = Runner::new(tree(&[("a", b"1"), ("b", b"22")]));
    let options = Options { dry_run: true, delete: true, ..PLAIN };
    assert_eq!(
        fetch(&mut runner, &mut local, options),
        [
            "would pull b",
            "would delete (local) x",
            "would transfer 1/2 files (0 bytes), 1 deleted: C:/w -> out"
        ]
    );
    let options = Options { dry_run: true, whole: true, ..PLAIN };
    assert_eq!(
        fetch(&mut runner, &mut local, options),
        ["would pull a", "would pull b", "would transfer 2/2 files (0 bytes): C:/w -> out"]
    );
    assert_eq!(local, before);
    assert_eq!(runner.log, ["tree false", "hash a b", "tree false"]);
}

#[test]
fn a_path_with_nothing_below_is_pulled_as_one_file() {
    let size = 8 * 1024 * 1024;
    let mut runner = Runner::new(Files::new());
    runner.files.insert("one".to_string(), vec![5; size]);
    let mut local = Files::new();
    let options = Options { dry_run: true, ..PLAIN };
    assert_eq!(fetch(&mut runner, &mut local, options), ["would pull C:/w -> out"]);
    assert!(local.is_empty());
    let shown = fetch(&mut runner, &mut local, PLAIN);
    assert_eq!(shown, [format!("pulled C:/w -> out ({size} bytes)")]);
    assert_eq!(local["out"], runner.files["one"]);
    let whole = Options { whole: true, delete: true, ..PLAIN };
    let mut runner = Runner::new(tree(&[("a", b"1")]));
    let mut local = Files::new();
    let shown = fetch(&mut runner, &mut local, whole);
    assert_eq!(shown[0], "\u{2190} a");
    assert_eq!(local, runner.files);
}
