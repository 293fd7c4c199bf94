//! Persisting the two artifacts: each is written to a temporary file in its
//! own directory and renamed over its final path, so a reader sees either
//! the previous artifact or the new one, never a partial file.
use vstd::prelude::*;

verus! {

/// One of the two persisted files.
#[derive(Clone, Copy, Debug, PartialEq, Eq, Structural)]
pub enum Artifact {
    Config,
    Secrets,
}

/// Owner read and write only.
pub const PRIVATE_MODE: u32 = 0o600;

/// Owner read and write, everyone else read.
pub const SHARED_MODE: u32 = 0o644;

/// A filesystem step that the host performs on the library's behalf.
#[derive(Clone, Debug)]
pub enum FsOp {
    /// Create a directory and its parents; an existing one is no error.
    CreateDir { path: String },
    /// Create or replace a file with these bytes and this permission mode.
    WriteFile { path: String, bytes: Vec<u8>, mode: u32 },
    /// Move a file over another path in one step.
    Rename { from: String, to: String },
    /// Remove a file; a missing one is no error.
    RemoveFile { path: String },
}

pub open spec fn dir_text(a: Artifact) -> Seq<char> {
    match a {
        Artifact::Config => "./config"@,
        Artifact::Secrets => "./secrets"@,
    }
}

pub open spec fn final_text(a: Artifact) -> Seq<char> {
    match a {
        Artifact::Config => "./config/config.toml"@,
        Artifact::Secrets => "./secrets/secrets.yaml"@,
    }
}

pub open spec fn temp_text(a: Artifact) -> Seq<char> {
    final_text(a) + ".tmp"@
}

/// The permission mode of an artifact: the secrets are private whatever
/// they hold.
pub open spec fn mode_of(a: Artifact) -> u32 {
    match a {
        Artifact::Config => SHARED_MODE,
        Artifact::Secrets => PRIVATE_MODE,
    }
}

pub fn artifact_dir(a: Artifact) -> (r: String)
    ensures
        r@ == dir_text(a),
{
    match a {
        Artifact::Config => "./config".to_owned(),
        Artifact::Secrets => "./secrets".to_owned(),
    }
}

pub fn final_path(a: Artifact) -> (r: String)
    ensures
        r@ == final_text(a),
{
    match a {
        Artifact::Config => "./config/config.toml".to_owned(),
        Artifact::Secrets => "./secrets/secrets.yaml".to_owned(),
    }
}

pub fn temp_path(a: Artifact) -> (r: String)
    ensures
        r@ == temp_text(a),
{
    let mut p = final_path(a);
    p.append(".tmp");
    p
}

pub fn artifact_mode(a: Artifact) -> (r: u32)
    ensures
        r == mode_of(a),
{
    match a {
        Artifact::Config => SHARED_MODE,
        Artifact::Secrets => PRIVATE_MODE,
    }
}

/// A file as the model of the host's filesystem sees it.
pub struct FileState {
    pub bytes: Seq<u8>,
    pub mode: u32,
}

/// The files of the host, by path.
pub type Files = Map<Seq<char>, FileState>;

/// What one step does to the files. Directories are not modelled.
pub open spec fn apply(fs: Files, op: FsOp) -> Files {
    match op {
        FsOp::CreateDir { .. } => fs,
        FsOp::WriteFile { path, bytes, mode } => fs.insert(path@, FileState { bytes: bytes@, mode }),
        FsOp::Rename { from, to } => if fs.contains_key(from@) {
            fs.remove(from@).insert(to@, fs[from@])
        } else {
            fs
        },
        FsOp::RemoveFile { path } => fs.remove(path@),
    }
}

/// The files after the steps, run in order.
pub open spec fn apply_all(fs: Files, ops: Seq<FsOp>) -> Files
    decreases ops.len(),
{
    if ops.len() == 0 {
        fs
    } else {
        apply(apply_all(fs, ops.drop_last()), ops.last())
    }
}

/// The steps that persist `bytes` as the artifact: create its directory,
/// write a temporary file beside it with the artifact's mode, rename.
pub open spec fn is_write_plan(ops: Seq<FsOp>, a: Artifact, bytes: Seq<u8>) -> bool {
    &&& ops.len() == 3
    &&& ops[0] matches FsOp::CreateDir { path } && path@ == dir_text(a)
    &&& ops[1] matches FsOp::WriteFile { path, bytes: b, mode } && path@ == temp_text(a)
        && b@ == bytes && mode == mode_of(a)
    &&& ops[2] matches FsOp::Rename { from, to } && from@ == temp_text(a) && to@ == final_text(a)
}

/// The steps that persist `bytes` as the artifact `a`.
pub fn write_plan(a: Artifact, bytes: Vec<u8>) -> (r: Vec<FsOp>)
    ensures
        is_write_plan(r@, a, bytes@),
{
    let mut ops: Vec<FsOp> = Vec::new();
    ops.push(FsOp::CreateDir { path: artifact_dir(a) });
    ops.push(FsOp::WriteFile { path: temp_path(a), bytes, mode: artifact_mode(a) });
    ops.push(FsOp::Rename { from: temp_path(a), to: final_path(a) });
    ops
}

/// A filesystem step of the host that failed.
#[derive(Clone, Debug)]
pub struct IoError {
    /// What was attempted: "create_dir", "write", "rename", "remove", "read".
    pub operation: String,
    pub path: String,
    /// The host's own words for the failure.
    pub cause: String,
}

/// The steps that remove both artifacts, the configuration first.
pub open spec fn is_removal_plan(ops: Seq<FsOp>) -> bool {
    &&& ops.len() == 2
    &&& ops[0] matches FsOp::RemoveFile { path } && path@ == final_text(Artifact::Config)
    &&& ops[1] matches FsOp::RemoveFile { path } && path@ == final_text(Artifact::Secrets)
}

/// The steps that take both artifacts away again.
pub fn removal_plan() -> (r: Vec<FsOp>)
    ensures
        is_removal_plan(r@),
{
    let mut ops: Vec<FsOp> = Vec::new();
    ops.push(FsOp::RemoveFile { path: final_path(Artifact::Config) });
    ops.push(FsOp::RemoveFile { path: final_path(Artifact::Secrets) });
    ops
}

proof fn lemma_paths_differ(a: Artifact)
    ensures
        temp_text(a) != final_text(a),
{
    reveal_strlit(".tmp");
    assert(temp_text(a).len() == final_text(a).len() + 4);
}

proof fn lemma_plan_prefixes(fs: Files, ops: Seq<FsOp>, a: Artifact, bytes: Seq<u8>)
    requires
        is_write_plan(ops, a, bytes),
    ensures
        apply_all(fs, ops.take(0)) == fs,
        apply_all(fs, ops.take(1)) == fs,
        apply_all(fs, ops.take(2)) == fs.insert(temp_text(a), FileState { bytes, mode: mode_of(a) }),
        apply_all(fs, ops) == apply(fs.insert(temp_text(a), FileState { bytes, mode: mode_of(a) }), ops[2]),
{
    assert(ops.take(1).drop_last() =~= ops.take(0));
    assert(ops.take(2).drop_last() =~= ops.take(1));
    assert(ops.drop_last() =~= ops.take(2));
    assert(apply_all(fs, ops.take(0)) == fs);
    assert(apply_all(fs, ops.take(1)) == apply(fs, ops[0]));
    assert(apply_all(fs, ops.take(2)) == apply(apply_all(fs, ops.take(1)), ops[1]));
}

/// A crash at any point of a write plan leaves the final path as it was
/// (absent on a first install); once the plan has run, it holds the whole
/// new artifact. It never holds a partial file.
pub proof fn lemma_write_atomic(fs: Files, ops: Seq<FsOp>, a: Artifact, bytes: Seq<u8>, done: int)
    requires
        is_write_plan(ops, a, bytes),
        0 <= done <= ops.len(),
    ensures
        done < ops.len() ==> {
            let after = apply_all(fs, ops.take(done));
            &&& after.contains_key(final_text(a)) == fs.contains_key(final_text(a))
            &&& fs.contains_key(final_text(a)) ==> after[final_text(a)] == fs[final_text(a)]
        },
        done == ops.len() ==> apply_all(fs, ops.take(done)).contains_key(final_text(a))
            && apply_all(fs, ops.take(done))[final_text(a)] == (FileState { bytes, mode: mode_of(a) }),
{
    lemma_plan_prefixes(fs, ops, a, bytes);
    lemma_paths_differ(a);
    assert(ops.take(3) =~= ops);
}

/// Reading an artifact after its write plan has run gives back exactly the
/// bytes that were written.
pub proof fn lemma_write_then_read(fs: Files, ops: Seq<FsOp>, a: Artifact, bytes: Seq<u8>)
    requires
        is_write_plan(ops, a, bytes),
    ensures
        apply_all(fs, ops).contains_key(final_text(a)),
        apply_all(fs, ops)[final_text(a)].bytes == bytes,
{
    lemma_write_atomic(fs, ops, a, bytes, 3);
    assert(ops.take(3) =~= ops);
}

/// The secrets artifact is left owner-only whatever it holds, with or
/// without credentials.
pub proof fn lemma_secrets_private(fs: Files, ops: Seq<FsOp>, bytes: Seq<u8>)
    requires
        is_write_plan(ops, Artifact::Secrets, bytes),
    ensures
        apply_all(fs, ops)[final_text(Artifact::Secrets)].mode == PRIVATE_MODE,
{
    lemma_write_atomic(fs, ops, Artifact::Secrets, bytes, 3);
    assert(ops.take(3) =~= ops);
}

/// After the removal plan has run, neither artifact is left.
pub proof fn lemma_removal_clears(fs: Files, ops: Seq<FsOp>)
    requires
        is_removal_plan(ops),
    ensures
        !apply_all(fs, ops).contains_key(final_text(Artifact::Config)),
        !apply_all(fs, ops).contains_key(final_text(Artifact::Secrets)),
{
    let first = ops.drop_last();
    assert(first.drop_last() =~= Seq::<FsOp>::empty());
    assert(first.last() == ops[0]);
    assert(apply_all(fs, first.drop_last()) == fs);
    assert(apply_all(fs, first) == apply(fs, ops[0]));
}

} // verus!
