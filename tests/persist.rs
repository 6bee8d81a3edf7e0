use kobo_wifi_remote::persist::{write_plan, FileOp};
use std::collections::HashMap;

fn apply(fs: &mut HashMap<String, Vec<u8>>, op: &FileOp) {
    match op {
        FileOp::Copy { from, to } => {
            if let Some(d) = fs.get(from).cloned() {
                fs.insert(to.clone(), d);
            }
        }
        FileOp::Write { path, data } => {
            fs.insert(path.clone(), data.clone());
        }
        FileOp::Rename { from, to } => {
            if let Some(d) = fs.remove(from) {
                fs.insert(to.clone(), d);
            }
        }
    }
}

#[test]
fn interrupted_write_leaves_the_original() {
    let path = "actions.toml".to_string();
    let mut fs = HashMap::new();
    fs.insert(path.clone(), b"old".to_vec());
    let ops = write_plan(&path, &"actions.toml.bkp".to_string(), &"actions.tmp".to_string(), true, b"new".to_vec());
    assert_eq!(ops.len(), 3);
    for n in 0..ops.len() {
        let mut partial = fs.clone();
        for op in &ops[..n] {
            apply(&mut partial, op);
        }
        assert_eq!(partial.get(&path), Some(&b"old".to_vec()));
    }
    let mut done = fs.clone();
    for op in &ops {
        apply(&mut done, op);
    }
    assert_eq!(done.get(&path), Some(&b"new".to_vec()));
    assert_eq!(done.get("actions.toml.bkp"), Some(&b"old".to_vec()));
    assert_eq!(done.get("actions.tmp"), None);
}

#[test]
fn first_write_has_no_backup() {
    let ops = write_plan(&"r.bin".to_string(), &"r.bin.bkp".to_string(), &"r.tmp".to_string(), false, vec![1, 2]);
    assert_eq!(ops.len(), 2);
    assert!(matches!(&ops[0], FileOp::Write { path, data } if path == "r.tmp" && data == &vec![1, 2]));
    assert!(matches!(&ops[1], FileOp::Rename { from, to } if from == "r.tmp" && to == "r.bin"));
}
