//! Decisions of the file fetcher: where a file may go, whether it is written,
//! what is written, and which permission bits it ends up with.
use vstd::prelude::*;
use vstd::string::StringSliceAdditionalSpecFns;
use vstd::utf8::valid_utf8;
use crate::text::{contains, ends_with, seq_contains, seq_ends_with};

verus! {

/// Where a fetch comes from, which decides what happens to an existing file.
#[derive(Clone, Copy, Debug, PartialEq, Eq, Structural)]
pub enum FetchMode {
    /// Directed by the control API: an existing file is never overwritten.
    SyncPoll,
    /// Asked for over HTTP: an existing file is always overwritten.
    ManualSave,
}

/// Why a fetch failed.
#[derive(Clone, Copy, Debug, PartialEq, Eq, Structural)]
pub enum FetchError {
    /// The destination path is absolute, empty, or climbs out of the workspace.
    PathRejected,
    /// The source could not be reached (reported as 504).
    SourceUnreachable,
    /// The source answered with a status outside 200..=299 (reported as 502).
    SourceStatus(u16),
    /// A `.json` destination received bytes that are not UTF-8.
    InvalidEncoding,
    /// Writing the destination failed.
    WriteFailed,
}

/// What a successful fetch did.
#[derive(Clone, Copy, Debug, PartialEq, Eq, Structural)]
pub enum FetchOutcome {
    Written,
    Skipped,
}

/// The HTTP status that reports each error to a caller of the save route.
pub open spec fn spec_status_code(e: FetchError) -> u16 {
    match e {
        FetchError::PathRejected => 400,
        FetchError::SourceUnreachable => 504,
        FetchError::SourceStatus(_) => 502,
        FetchError::InvalidEncoding => 422,
        FetchError::WriteFailed => 500,
    }
}

impl FetchError {
    /// The HTTP status that reports this error.
    pub fn status_code(&self) -> (r: u16)
        ensures
            r == spec_status_code(*self),
    {
        match self {
            FetchError::PathRejected => 400,
            FetchError::SourceUnreachable => 504,
            FetchError::SourceStatus(_) => 502,
            FetchError::InvalidEncoding => 422,
            FetchError::WriteFailed => 500,
        }
    }
}

/// Two errors of different kinds are reported with different statuses.
pub proof fn lemma_status_codes_distinct(a: FetchError, b: FetchError)
    requires
        !(a is SourceStatus && b is SourceStatus),
        a != b,
    ensures
        spec_status_code(a) != spec_status_code(b),
{
}

// ---------------------------------------------------------------------------
// Destination paths

/// A `..` component starts at position `i` of `p`: two dots bounded by `/`
/// or by the ends.
pub open spec fn parent_component_at(p: Seq<char>, i: int) -> bool {
    0 <= i && i + 2 <= p.len() && p[i] == '.' && p[i + 1] == '.' && (i == 0 || p[i - 1] == '/')
        && (i + 2 == p.len() || p[i + 2] == '/')
}

/// `p` holds a `..` component.
pub open spec fn has_parent_component(p: Seq<char>) -> bool {
    exists|i: int| #[trigger] parent_component_at(p, i)
}

/// A destination that stays inside the workspace root once joined to it.
pub open spec fn is_safe_destination(p: Seq<char>) -> bool {
    p.len() > 0 && p[0] != '/' && !has_parent_component(p)
}

/// Accepts a workspace-relative destination, or rejects one that could leave
/// the workspace.
pub fn validate_destination(path: &str) -> (r: Result<(), FetchError>)
    ensures
        r is Ok <==> is_safe_destination(path@),
        r is Err ==> r == Err::<(), FetchError>(FetchError::PathRejected),
{
    let n = path.unicode_len();
    if n == 0 || path.get_char(0) == '/' {
        return Err(FetchError::PathRejected);
    }
    let mut i: usize = 0;
    while i < n
        invariant
            n == path@.len(),
            forall|j: int| 0 <= j < i ==> !#[trigger] parent_component_at(path@, j),
        decreases n - i,
    {
        if 2 <= n - i && path.get_char(i) == '.' && path.get_char(i + 1) == '.' && (i == 0
            || path.get_char(i - 1) == '/') && (i + 2 == n || path.get_char(i + 2) == '/') {
            assert(parent_component_at(path@, i as int));
            return Err(FetchError::PathRejected);
        }
        i = i + 1;
    }
    assert(!has_parent_component(path@));
    Ok(())
}

/// The absolute path of a workspace-relative destination.
pub fn resolve(root: &str, rel: &str) -> (r: String)
    ensures
        r@ == root@ + seq!['/'] + rel@,
{
    let mut r = String::from_str(root);
    r.append("/");
    r.append(rel);
    proof {
        reveal_strlit("/");
    }
    r
}

// ---------------------------------------------------------------------------
// Whether to write

/// Sync polling never overwrites; a manual save always writes.
pub open spec fn spec_should_write(mode: FetchMode, exists: bool) -> bool {
    mode == FetchMode::ManualSave || !exists
}

/// Whether the destination is to be written, given whether it exists already.
pub fn should_write(mode: FetchMode, exists: bool) -> (r: bool)
    ensures
        r == spec_should_write(mode, exists),
{
    match mode {
        FetchMode::ManualSave => true,
        FetchMode::SyncPoll => !exists,
    }
}

/// The workspace's files after one fetch of `content` to `path`.
pub open spec fn after_fetch(
    files: Map<Seq<char>, Seq<u8>>,
    mode: FetchMode,
    path: Seq<char>,
    content: Seq<u8>,
) -> Map<Seq<char>, Seq<u8>> {
    if spec_should_write(mode, files.contains_key(path)) {
        files.insert(path, content)
    } else {
        files
    }
}

/// A second sync-poll fetch of a path leaves the files as the first one left
/// them, whatever the second one retrieved.
pub proof fn lemma_sync_poll_idempotent(
    files: Map<Seq<char>, Seq<u8>>,
    path: Seq<char>,
    first: Seq<u8>,
    second: Seq<u8>,
)
    ensures
        after_fetch(after_fetch(files, FetchMode::SyncPoll, path, first), FetchMode::SyncPoll, path, second)
            == after_fetch(files, FetchMode::SyncPoll, path, first),
        files.contains_key(path) ==> after_fetch(files, FetchMode::SyncPoll, path, first) == files,
{
}

/// A manual save leaves exactly the retrieved content at the path, whatever
/// was there before, and touches no other path.
pub proof fn lemma_manual_save_overwrites(
    files: Map<Seq<char>, Seq<u8>>,
    path: Seq<char>,
    content: Seq<u8>,
)
    ensures
        after_fetch(files, FetchMode::ManualSave, path, content).contains_key(path),
        after_fetch(files, FetchMode::ManualSave, path, content)[path] == content,
        forall|q: Seq<char>|
            q != path ==> #[trigger] after_fetch(files, FetchMode::ManualSave, path, content).contains_key(q)
                == files.contains_key(q) && (files.contains_key(q) ==> after_fetch(
                files,
                FetchMode::ManualSave,
                path,
                content,
            )[q] == files[q]),
{
}

// ---------------------------------------------------------------------------
// Source status

/// A source status that counts as success.
pub open spec fn is_success_status(status: u16) -> bool {
    200 <= status <= 299
}

/// Accepts a 2xx status of the source, rejects any other.
pub fn check_status(status: u16) -> (r: Result<(), FetchError>)
    ensures
        r is Ok <==> is_success_status(status),
        r is Err ==> r == Err::<(), FetchError>(FetchError::SourceStatus(status)),
{
    if 200 <= status && status <= 299 {
        Ok(())
    } else {
        Err(FetchError::SourceStatus(status))
    }
}

// ---------------------------------------------------------------------------
// Content transform

/// The placeholder that `.json` files carry for the user identifier: the
/// bytes of `{VS_USER}`.
pub open spec fn placeholder_bytes() -> Seq<u8> {
    seq![123u8, 86u8, 83u8, 95u8, 85u8, 83u8, 69u8, 82u8, 125u8]
}

/// The placeholder as an owned byte vector.
pub fn placeholder() -> (r: Vec<u8>)
    ensures
        r@ == placeholder_bytes(),
{
    let r: Vec<u8> = vec![123u8, 86u8, 83u8, 95u8, 85u8, 83u8, 69u8, 82u8, 125u8];
    assert(r@ =~= placeholder_bytes());
    r
}

/// `pat` starts at position `i` of `s`.
pub open spec fn bytes_at(s: Seq<u8>, pat: Seq<u8>, i: int) -> bool {
    0 <= i && i + pat.len() <= s.len() && s.subrange(i, i + pat.len()) == pat
}

/// `s` with every occurrence of `pat` replaced by `rep`, scanning from the
/// left and never overlapping two occurrences.
pub open spec fn replace_all(s: Seq<u8>, pat: Seq<u8>, rep: Seq<u8>) -> Seq<u8>
    decreases s.len(),
{
    if s.len() == 0 {
        s
    } else if pat.len() > 0 && bytes_at(s, pat, 0) {
        rep + replace_all(s.skip(pat.len() as int), pat, rep)
    } else {
        seq![s[0]] + replace_all(s.skip(1), pat, rep)
    }
}

/// Content in which the pattern never occurs is left as it is.
pub proof fn lemma_replace_absent(s: Seq<u8>, pat: Seq<u8>, rep: Seq<u8>)
    requires
        pat.len() > 0,
        forall|i: int| !#[trigger] bytes_at(s, pat, i),
    ensures
        replace_all(s, pat, rep) == s,
    decreases s.len(),
{
    if s.len() > 0 {
        assert(!bytes_at(s, pat, 0));
        let t = s.skip(1);
        assert forall|i: int| !#[trigger] bytes_at(t, pat, i) by {
            if bytes_at(t, pat, i) {
                assert(s.subrange(i + 1, i + 1 + pat.len()) =~= t.subrange(i, i + pat.len()));
                assert(bytes_at(s, pat, i + 1));
            }
        }
        lemma_replace_absent(t, pat, rep);
        assert(seq![s[0]] + t =~= s);
    }
}

/// Whether `pat` starts at position `i` of `s`.
fn bytes_match_at(s: &[u8], pat: &[u8], i: usize) -> (r: bool)
    requires
        i <= s@.len(),
    ensures
        r == bytes_at(s@, pat@, i as int),
{
    let n = s.len();
    let m = pat.len();
    if m > n - i {
        return false;
    }
    let mut k: usize = 0;
    while k < m
        invariant
            n == s@.len(),
            m == pat@.len(),
            i + m <= n,
            k <= m,
            forall|j: int| 0 <= j < k ==> s@[i + j] == pat@[j],
        decreases m - k,
    {
        if s[i + k] != pat[k] {
            assert(s@.subrange(i as int, i + m)[k as int] != pat@[k as int]);
            return false;
        }
        k = k + 1;
    }
    assert(s@.subrange(i as int, i + m) =~= pat@);
    true
}

/// Replaces every occurrence of `pat` in `s` by `rep`.
pub fn replace_bytes(s: &[u8], pat: &[u8], rep: &[u8]) -> (r: Vec<u8>)
    requires
        pat@.len() > 0,
    ensures
        r@ == replace_all(s@, pat@, rep@),
{
    let n = s.len();
    let m = pat.len();
    let mut out: Vec<u8> = Vec::new();
    let mut i: usize = 0;
    assert(s@.skip(0) =~= s@);
    assert(out@ + replace_all(s@, pat@, rep@) =~= replace_all(s@, pat@, rep@));
    while i < n
        invariant
            n == s@.len(),
            m == pat@.len(),
            m > 0,
            i <= n,
            replace_all(s@, pat@, rep@) == out@ + replace_all(s@.skip(i as int), pat@, rep@),
        decreases n - i,
    {
        let ghost rest = s@.skip(i as int);
        let ghost before = out@;
        if bytes_match_at(s, pat, i) {
            assert(rest.subrange(0, m as int) =~= s@.subrange(i as int, i + m));
            let mut k: usize = 0;
            while k < rep.len()
                invariant
                    k <= rep@.len(),
                    out@ == before + rep@.subrange(0, k as int),
                decreases rep@.len() - k,
            {
                out.push(rep[k]);
                k = k + 1;
                assert(out@ =~= before + rep@.subrange(0, k as int));
            }
            assert(rep@.subrange(0, rep@.len() as int) =~= rep@);
            assert(rest.skip(m as int) =~= s@.skip(i + m));
            assert(out@ + replace_all(s@.skip(i + m), pat@, rep@) =~= before + (rep@
                + replace_all(rest.skip(m as int), pat@, rep@)));
            i = i + m;
        } else {
            assert(!bytes_at(rest, pat@, 0)) by {
                if m <= n - i {
                    assert(rest.subrange(0, m as int) =~= s@.subrange(i as int, i + m));
                }
            }
            out.push(s[i]);
            assert(rest.skip(1) =~= s@.skip(i + 1));
            assert(out@ + replace_all(s@.skip(i + 1), pat@, rep@) =~= before + (seq![rest[0]]
                + replace_all(rest.skip(1), pat@, rep@)));
            i = i + 1;
        }
    }
    assert(s@.skip(n as int) =~= Seq::<u8>::empty());
    assert(out@ + Seq::<u8>::empty() =~= out@);
    out
}

/// Relies on std::str::from_utf8: it succeeds exactly on valid UTF-8.
#[verifier::external_body]
fn is_utf8(b: &[u8]) -> (r: bool)
    ensures
        r == valid_utf8(b@),
{
    std::str::from_utf8(b).is_ok()
}

/// Destinations whose content gets the user identifier.
pub open spec fn is_json_path(path: Seq<char>) -> bool {
    seq_ends_with(path, seq!['.', 'j', 's', 'o', 'n'])
}

/// What is written for `body` retrieved for `path`: for a `.json` path the
/// UTF-8 text with every placeholder replaced by the user identifier,
/// otherwise the bytes as they are.
pub open spec fn spec_transform(path: Seq<char>, body: Seq<u8>, user: Seq<u8>) -> Result<
    Seq<u8>,
    FetchError,
> {
    if !is_json_path(path) {
        Ok(body)
    } else if !valid_utf8(body) {
        Err(FetchError::InvalidEncoding)
    } else {
        Ok(replace_all(body, placeholder_bytes(), user))
    }
}

/// Applies the content transform that `path` calls for.
pub fn transform_content(path: &str, body: Vec<u8>, user: &str) -> (r: Result<Vec<u8>, FetchError>)
    ensures
        r is Ok <==> spec_transform(path@, body@, user.spec_bytes()) is Ok,
        r is Ok ==> spec_transform(path@, body@, user.spec_bytes()) == Ok::<Seq<u8>, FetchError>(
            r->Ok_0@,
        ),
        r is Err ==> spec_transform(path@, body@, user.spec_bytes()) == Err::<Seq<u8>, FetchError>(
            r->Err_0,
        ),
{
    let json = ends_with(path, ".json");
    proof {
        reveal_strlit(".json");
        assert(".json"@ =~= seq!['.', 'j', 's', 'o', 'n']);
    }
    if !json {
        return Ok(body);
    }
    if !is_utf8(body.as_slice()) {
        return Err(FetchError::InvalidEncoding);
    }
    let pat = placeholder();
    Ok(replace_bytes(body.as_slice(), pat.as_slice(), user.as_bytes()))
}

/// Checks the source status, then transforms the retrieved body for `path`.
pub fn prepare_content(path: &str, status: u16, body: Vec<u8>, user: &str) -> (r: Result<
    Vec<u8>,
    FetchError,
>)
    ensures
        !is_success_status(status) ==> r == Err::<Vec<u8>, FetchError>(
            FetchError::SourceStatus(status),
        ),
        is_success_status(status) ==> (r is Ok <==> spec_transform(
            path@,
            body@,
            user.spec_bytes(),
        ) is Ok),
        is_success_status(status) && r is Ok ==> spec_transform(path@, body@, user.spec_bytes())
            == Ok::<Seq<u8>, FetchError>(r->Ok_0@),
        is_success_status(status) && r is Err ==> spec_transform(path@, body@, user.spec_bytes())
            == Err::<Seq<u8>, FetchError>(r->Err_0),
{
    match check_status(status) {
        Ok(()) => transform_content(path, body, user),
        Err(e) => Err(e),
    }
}

// ---------------------------------------------------------------------------
// Permission policy

/// The bits that the policy adds for `path`: owner read, write and execute
/// (0o744) for a path holding `.code`, read and write for all (0o666) otherwise.
pub open spec fn policy_bits(path: Seq<char>) -> u32 {
    if seq_contains(path, seq!['.', 'c', 'o', 'd', 'e']) {
        0o744
    } else {
        0o666
    }
}

/// The mode that a written file gets: its existing bits with the policy's added.
pub fn permission_mode(path: &str, existing: u32) -> (r: u32)
    ensures
        r == existing | policy_bits(path@),
{
    let code = contains(path, ".code");
    proof {
        reveal_strlit(".code");
        assert(".code"@ =~= seq!['.', 'c', 'o', 'd', 'e']);
    }
    if code {
        existing | 0o744
    } else {
        existing | 0o666
    }
}

/// The policy only adds bits: a `.code` path ends up with owner read, write
/// and execute, any other path with read and write for all, and no bit that
/// was set is cleared.
pub proof fn lemma_permission_policy(path: Seq<char>, existing: u32)
    ensures
        (existing | policy_bits(path)) & existing == existing,
        seq_contains(path, seq!['.', 'c', 'o', 'd', 'e']) ==> (existing | policy_bits(path)) & 0o700
            == 0o700,
        !seq_contains(path, seq!['.', 'c', 'o', 'd', 'e']) ==> (existing | policy_bits(path))
            & 0o666 == 0o666,
{
    assert((existing | 0o744u32) & existing == existing) by (bit_vector);
    assert((existing | 0o666u32) & existing == existing) by (bit_vector);
    assert((existing | 0o744u32) & 0o700u32 == 0o700u32) by (bit_vector);
    assert((existing | 0o666u32) & 0o666u32 == 0o666u32) by (bit_vector);
}

} // verus!
