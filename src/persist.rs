//! How a store is written without ever leaving a half-written file under its
//! own name: back up the current file, write a temporary file, then rename
//! it over the store's file. The caller performs the steps on the filesystem.
use vstd::prelude::*;

verus! {

/// One filesystem step.
#[derive(Clone, Debug)]
pub enum FileOp {
    Copy { from: String, to: String },
    Write { path: String, data: Vec<u8> },
    Rename { from: String, to: String },
}

/// What a step does to a filesystem of paths and contents.
pub open spec fn apply_op(fs: Map<Seq<char>, Seq<u8>>, op: FileOp) -> Map<Seq<char>, Seq<u8>> {
    match op {
        FileOp::Copy { from, to } => if fs.contains_key(from@) {
            fs.insert(to@, fs[from@])
        } else {
            fs
        },
        FileOp::Write { path, data } => fs.insert(path@, data@),
        FileOp::Rename { from, to } => if fs.contains_key(from@) {
            fs.remove(from@).insert(to@, fs[from@])
        } else {
            fs
        },
    }
}

/// The filesystem after the steps, in order.
pub open spec fn run_ops(fs: Map<Seq<char>, Seq<u8>>, ops: Seq<FileOp>) -> Map<Seq<char>, Seq<u8>>
    decreases ops.len(),
{
    if ops.len() == 0 {
        fs
    } else {
        run_ops(apply_op(fs, ops[0]), ops.drop_first())
    }
}

/// The steps that write `data` to `path`: a backup of the current file if
/// there is one, a temporary file, and the rename over the current one.
pub open spec fn plan(path: String, backup: String, tmp: String, exists: bool, data: Vec<u8>) -> Seq<FileOp> {
    (if exists {
        seq![FileOp::Copy { from: path, to: backup }]
    } else {
        Seq::empty()
    }) + seq![FileOp::Write { path: tmp, data }, FileOp::Rename { from: tmp, to: path }]
}

pub fn write_plan(path: &String, backup: &String, tmp: &String, exists: bool, data: Vec<u8>) -> (r:
    Vec<FileOp>)
    ensures
        r@ == plan(*path, *backup, *tmp, exists, data),
{
    let mut ops: Vec<FileOp> = Vec::new();
    if exists {
        ops.push(FileOp::Copy { from: path.clone(), to: backup.clone() });
    }
    ops.push(FileOp::Write { path: tmp.clone(), data });
    ops.push(FileOp::Rename { from: tmp.clone(), to: path.clone() });
    assert(ops@ =~= plan(*path, *backup, *tmp, exists, data));
    ops
}

/// The file at `path` in `fs` is as it is in `orig`: absent in both, or
/// present in both with the same contents.
pub open spec fn same_file(fs: Map<Seq<char>, Seq<u8>>, orig: Map<Seq<char>, Seq<u8>>, path: Seq<char>) -> bool {
    fs.contains_key(path) == orig.contains_key(path) && (orig.contains_key(path) ==> fs[path]
        == orig[path])
}

/// Interrupted after any number of steps short of the last, a store write
/// leaves the file at `path` exactly as it was; run to the end, it leaves
/// the new contents at `path` and the old ones in the backup.
pub proof fn lemma_write_is_atomic(
    fs: Map<Seq<char>, Seq<u8>>,
    path: String,
    backup: String,
    tmp: String,
    data: Vec<u8>,
    n: int,
)
    requires
        path@ != backup@,
        path@ != tmp@,
        backup@ != tmp@,
        0 <= n < plan(path, backup, tmp, fs.contains_key(path@), data).len(),
    ensures
        same_file(
            run_ops(fs, plan(path, backup, tmp, fs.contains_key(path@), data).take(n)),
            fs,
            path@,
        ),
        run_ops(fs, plan(path, backup, tmp, fs.contains_key(path@), data)).contains_key(path@),
        run_ops(fs, plan(path, backup, tmp, fs.contains_key(path@), data))[path@] == data@,
        fs.contains_key(path@) ==> run_ops(fs, plan(path, backup, tmp, true, data))[backup@]
            == fs[path@],
{
    let exists = fs.contains_key(path@);
    let p = plan(path, backup, tmp, exists, data);
    let w = FileOp::Write { path: tmp, data };
    let rn = FileOp::Rename { from: tmp, to: path };
    let fs1 = if exists {
        apply_op(fs, FileOp::Copy { from: path, to: backup })
    } else {
        fs
    };
    let fs2 = apply_op(fs1, w);
    let fs3 = apply_op(fs2, rn);
    assert(same_file(fs1, fs, path@));
    assert(same_file(fs2, fs, path@));
    assert(fs3.contains_key(path@) && fs3[path@] == data@);
    if exists {
        assert(fs1.contains_key(backup@) && fs1[backup@] == fs[path@]);
        assert(fs3[backup@] == fs[path@]);
    }
    let empty = Seq::<FileOp>::empty();
    assert(run_ops(fs3, empty) == fs3);
    assert(run_ops(fs2, seq![rn]) == fs3) by {
        assert(seq![rn].drop_first() =~= empty);
    }
    assert(run_ops(fs1, seq![w, rn]) == fs3) by {
        assert(seq![w, rn].drop_first() =~= seq![rn]);
    }
    assert(run_ops(fs1, seq![w]) == fs2) by {
        assert(seq![w].drop_first() =~= empty);
        assert(run_ops(fs2, empty) == fs2);
    }
    if exists {
        let c = FileOp::Copy { from: path, to: backup };
        assert(p =~= seq![c, w, rn]);
        assert(p.drop_first() =~= seq![w, rn]);
        assert(run_ops(fs, p) == fs3);
        if n == 0 {
            assert(p.take(0) =~= empty);
        } else if n == 1 {
            assert(p.take(1) =~= seq![c]);
            assert(seq![c].drop_first() =~= empty);
            assert(run_ops(fs1, empty) == fs1);
        } else {
            assert(p.take(2) =~= seq![c, w]);
            assert(seq![c, w].drop_first() =~= seq![w]);
        }
    } else {
        assert(p =~= seq![w, rn]);
        assert(run_ops(fs, p) == fs3);
        if n == 0 {
            assert(p.take(0) =~= empty);
        } else {
            assert(p.take(1) =~= seq![w]);
        }
    }
}

} // verus!
