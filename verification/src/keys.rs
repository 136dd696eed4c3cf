//! Ed25519 key pairs and the files that hold them.
use ssh_key::getrandom::SysRng;
use ssh_key::private::Ed25519Keypair;
use ssh_key::rand_core::TryRng;
use ssh_key::{LineEnding, PrivateKey};
use vstd::prelude::*;
use vstd::string::StringExecFns;

use crate::text;
use crate::text::blank;

verus! {

// ----- errors -----

/// What was being done when making a key pair failed.
#[derive(Debug, Clone, Copy, PartialEq, Eq, Structural)]
pub enum KeyStage {
    /// Drawing the key.
    Generate,
    /// Writing the private key down.
    WritePrivate,
    /// Writing the public key down.
    WritePublic,
}

impl KeyStage {
    /// The text for the stage.
    pub open spec fn text(self) -> Seq<char> {
        match self {
            KeyStage::Generate => "生成 Ed25519 密钥失败"@,
            KeyStage::WritePrivate => "写入私钥失败"@,
            KeyStage::WritePublic => "序列化公钥失败"@,
        }
    }

    /// The text for the stage.
    pub fn message(&self) -> (r: &'static str)
        ensures
            r@ == self.text(),
    {
        match self {
            KeyStage::Generate => "生成 Ed25519 密钥失败",
            KeyStage::WritePrivate => "写入私钥失败",
            KeyStage::WritePublic => "序列化公钥失败",
        }
    }
}

/// The text for an error, with its cause.
pub open spec fn error_text(stage: KeyStage, detail: Seq<char>) -> Seq<char> {
    stage.text() + ": "@ + detail
}

/// Why a key pair could not be made.
#[derive(Debug)]
pub struct KeyError {
    pub stage: KeyStage,
    pub detail: String,
}

impl KeyError {
    /// The text for the error, with its cause.
    pub fn message(&self) -> (r: String)
        ensures
            r@ == self.stage.text() + ": "@ + self.detail@,
            r@ == error_text(self.stage, self.detail@),
    {
        let mut out = self.stage.message().to_owned();
        out.append(": ");
        out.append(self.detail.as_str());
        out
    }
}

/// The error of the key library.
#[verifier::external_type_specification]
#[verifier::external_body]
pub struct ExKeyLibraryError(ssh_key::Error);

/// The `Display` text of `ssh_key::Error`, of which nothing is known.
#[verifier::external_body]
fn described(e: &ssh_key::Error) -> String {
    format!("{e}")
}

fn failed(stage: KeyStage, e: ssh_key::Error) -> (r: KeyError)
    ensures
        r.stage == stage,
{
    KeyError { stage, detail: described(&e) }
}

// ----- keys as text -----

/// How the public text of an Ed25519 key begins.
pub open spec fn ed25519_prefix() -> Seq<char> {
    "ssh-ed25519 "@
}

/// Whether the text ends with the given one.
pub open spec fn ends_with(s: Seq<char>, end: Seq<char>) -> bool {
    s.len() >= end.len() && s.skip(s.len() - end.len()) == end
}

/// The OpenSSH text of a private key once it has the comment; nothing, where the given text
/// holds no such key or the new one cannot be written.
pub uninterp spec fn commented_key(pem: Seq<char>, comment: Seq<char>) -> Option<Seq<char>>;

/// The OpenSSH line of the public key that belongs to a private key once it has the comment;
/// nothing, where the given text holds no such key or the line cannot be written.
pub uninterp spec fn public_line(pem: Seq<char>, comment: Seq<char>) -> Option<Seq<char>>;

/// Whether a private key in OpenSSH text is an Ed25519 key, by its public lines.
pub open spec fn is_ed25519(pem: Seq<char>) -> bool {
    forall|comment: Seq<char>| (#[trigger] public_line(pem, comment)) matches Some(line)
        ==> text::starts_with(line, ed25519_prefix())
}

/// The OpenSSH text of the Ed25519 private key that a seed stands for; nothing, where it cannot
/// be written.
pub uninterp spec fn seed_key(seed: Seq<u8>) -> Option<Seq<char>>;

/// `SysRng::try_fill_bytes` of `getrandom`, for the bytes of a seed. Which bytes they are
/// depends on chance, and whether there are any on the system; nothing is said of either.
#[verifier::external_body]
fn random_seed() -> Result<[u8; 32], ssh_key::Error> {
    let mut seed = [0u8; 32];
    SysRng.try_fill_bytes(&mut seed).map_err(|_| ssh_key::Error::RngFailure)?;
    Ok(seed)
}

/// `PrivateKey::to_openssh` of `ssh_key` with line feeds, for the key of
/// `Ed25519Keypair::from_seed`. The public lines of such a key name Ed25519.
#[verifier::external_body]
fn seed_text(seed: &[u8; 32]) -> (r: Result<String, ssh_key::Error>)
    ensures
        seed_key(seed@) == (match r {
            Ok(t) => Some(t@),
            Err(_) => None,
        }),
        r matches Ok(t) ==> is_ed25519(t@),
{
    let key = PrivateKey::from(Ed25519Keypair::from_seed(seed));
    Ok(key.to_openssh(LineEnding::LF)?.to_string())
}

/// `PrivateKey::to_openssh` of `ssh_key` with line feeds, for what `PrivateKey::from_openssh`
/// reads and `PrivateKey::set_comment` then comments.
#[verifier::external_body]
fn private_text(pem: &str, comment: &str) -> (r: Result<String, ssh_key::Error>)
    ensures
        commented_key(pem@, comment@) == (match r {
            Ok(t) => Some(t@),
            Err(_) => None,
        }),
{
    let mut key = PrivateKey::from_openssh(pem)?;
    key.set_comment(comment);
    Ok(key.to_openssh(LineEnding::LF)?.to_string())
}

/// `PublicKey::to_openssh` of `ssh_key`, for the public key of what `PrivateKey::from_openssh`
/// reads and `PrivateKey::set_comment` then comments. The line ends with the comment behind a
/// space, unless the comment is empty.
#[verifier::external_body]
fn public_text(pem: &str, comment: &str) -> (r: Result<String, ssh_key::Error>)
    ensures
        public_line(pem@, comment@) == (match r {
            Ok(t) => Some(t@),
            Err(_) => None,
        }),
        r matches Ok(t) ==> comment@.len() > 0 ==> ends_with(t@, " "@ + comment@),
{
    let mut key = PrivateKey::from_openssh(pem)?;
    key.set_comment(comment);
    key.public_key().to_openssh()
}

// ----- key pairs -----

/// A key pair as it is written to its two files.
#[derive(Debug)]
pub struct KeyPair {
    pub private_file: String,
    pub public_path: String,
    pub public_file: String,
}

/// The comment that is written into a key: the given one, and none in place of a blank one.
pub open spec fn kept_comment(comment: Seq<char>) -> Seq<char> {
    if blank(comment) {
        Seq::empty()
    } else {
        comment
    }
}

/// The comment that is written into a key.
pub fn comment_to_keep(comment: &str) -> (r: &str)
    ensures
        r@ == kept_comment(comment@),
{
    let shown = text::chars_of(text::trim(comment));
    if shown.len() > 0 {
        comment
    } else {
        proof {
            reveal_strlit("");
        }
        assert(""@ =~= Seq::<char>::empty());
        ""
    }
}

/// What the public file holds for a public line.
pub open spec fn public_file(line: Seq<char>) -> Seq<char> {
    line + "\n"@
}

/// What the public file holds for a public line.
pub fn public_file_of(line: &str) -> (r: String)
    ensures
        r@ == public_file(line@),
{
    text::join(line, "\n")
}

/// The outcome of writing a private key and its public key down.
pub open spec fn is_pair_of(
    pem: Seq<char>,
    private_path: Seq<char>,
    comment: Seq<char>,
    r: Result<KeyPair, KeyError>,
) -> bool {
    match (
        commented_key(pem, kept_comment(comment)),
        public_line(pem, kept_comment(comment)),
    ) {
        (None, _) => r matches Err(e) && e.stage == KeyStage::WritePrivate,
        (Some(_), None) => r matches Err(e) && e.stage == KeyStage::WritePublic,
        (Some(key), Some(line)) => {
            &&& r matches Ok(k)
            &&& k.private_file@ == key
            &&& k.public_file@ == public_file(line)
            &&& is_public_path(private_path, k.public_path@)
        },
    }
}

/// The two files for a private key and a comment.
pub fn pair_of(pem: &str, private_path: &str, comment: &str) -> (r: Result<KeyPair, KeyError>)
    ensures
        is_pair_of(pem@, private_path@, comment@, r),
        r matches Ok(k) ==> !blank(comment@) ==> ends_with(
            k.public_file@,
            " "@ + comment@ + "\n"@,
        ),
{
    let kept = comment_to_keep(comment);
    let private_file = match private_text(pem, kept) {
        Ok(t) => t,
        Err(e) => {
            return Err(failed(KeyStage::WritePrivate, e));
        },
    };
    match public_text(pem, kept) {
        Ok(line) => {
            let public_file = public_file_of(line.as_str());
            proof {
                if !blank(comment@) {
                    let end = " "@ + comment@;
                    reveal_strlit("\n");
                    if comment@.len() == 0 {
                        assert(text::trimmed(comment@) =~= Seq::<char>::empty());
                    }
                    assert(public_file@.skip(public_file@.len() - (end.len() + 1)) =~= line@.skip(
                        line@.len() - end.len(),
                    ) + "\n"@);
                }
            }
            Ok(KeyPair { private_file, public_path: public_key_path(private_path), public_file })
        },
        Err(e) => Err(failed(KeyStage::WritePublic, e)),
    }
}

/// The outcome of writing the Ed25519 key of a seed and its public key down.
pub open spec fn is_seed_pair(
    seed: Seq<u8>,
    private_path: Seq<char>,
    comment: Seq<char>,
    r: Result<KeyPair, KeyError>,
) -> bool {
    match seed_key(seed) {
        Some(pem) => is_pair_of(pem, private_path, comment, r),
        None => r matches Err(e) && e.stage == KeyStage::Generate,
    }
}

/// The Ed25519 key pair of a seed: what to write to the private path, and what to write beside
/// it.
pub fn seed_pair(seed: &[u8; 32], private_path: &str, comment: &str) -> (r: Result<
    KeyPair,
    KeyError,
>)
    ensures
        is_seed_pair(seed@, private_path@, comment@, r),
        r matches Ok(k) ==> text::starts_with(k.public_file@, ed25519_prefix()),
        r matches Ok(k) ==> !blank(comment@) ==> ends_with(
            k.public_file@,
            " "@ + comment@ + "\n"@,
        ),
{
    match seed_text(seed) {
        Ok(pem) => {
            let r = pair_of(pem.as_str(), private_path, comment);
            proof {
                if r is Ok {
                    let line = public_line(pem@, kept_comment(comment@))->0;
                    let n = ed25519_prefix().len() as int;
                    assert((r->Ok_0).public_file@.subrange(0, n) =~= line.subrange(0, n));
                }
            }
            r
        },
        Err(e) => Err(failed(KeyStage::Generate, e)),
    }
}

/// A new Ed25519 key pair: what to write to the private path, and what to write beside it. It is
/// that of a seed that the system draws; where it draws none, that is the error.
pub fn generate_ed25519_keypair(private_path: &str, comment: &str) -> (r: Result<KeyPair, KeyError>)
    ensures
        ({
            ||| r matches Err(e) && e.stage == KeyStage::Generate
            ||| exists|seed: Seq<u8>| seed.len() == 32 && #[trigger] is_seed_pair(
                seed,
                private_path@,
                comment@,
                r,
            )
        }),
        r matches Ok(k) ==> text::starts_with(k.public_file@, ed25519_prefix()),
        r matches Ok(k) ==> !blank(comment@) ==> ends_with(
            k.public_file@,
            " "@ + comment@ + "\n"@,
        ),
{
    match random_seed() {
        Ok(seed) => {
            let r = seed_pair(&seed, private_path, comment);
            assert(is_seed_pair(seed@, private_path@, comment@, r));
            r
        },
        Err(e) => Err(failed(KeyStage::Generate, e)),
    }
}

// ----- paths -----

/// A part of a path that is a name on every system: not empty, without separators, drives or
/// streams, and neither the directory itself nor the one above it.
pub open spec fn plain_name(s: Seq<char>) -> bool {
    &&& s.len() > 0
    &&& forall|i: int| 0 <= i < s.len() ==> s[i] != '/' && s[i] != '\\' && s[i] != ':'
    &&& s != "."@
    &&& s != ".."@
}

/// Whether the character stands between the parts of a path on some system.
pub open spec fn is_separator(c: char) -> bool {
    c == '/' || c == '\\'
}

/// Where the last part of a path begins: behind the last separator or drive.
pub open spec fn last_part_start(path: Seq<char>) -> int
    decreases path.len(),
{
    if path.len() == 0 {
        0
    } else if is_separator(path.last()) || path.last() == ':' {
        path.len() as int
    } else {
        last_part_start(path.drop_last())
    }
}

/// The last part of a path.
pub open spec fn last_part(path: Seq<char>) -> Seq<char> {
    path.skip(last_part_start(path))
}

/// Whether a path begins with two separators, behind which some systems take names for a
/// server and a share, or for a device.
pub open spec fn begins_twice(path: Seq<char>) -> bool {
    path.len() >= 2 && is_separator(path[0]) && is_separator(path[1])
}

/// Whether a path is of the kind that one system takes word for word.
pub open spec fn is_verbatim(path: Seq<char>) -> bool {
    text::starts_with(path, "\\\\?\\"@)
}

/// Whether a server and a share, or what some system takes for them, stand between the first
/// position and the second one, each with a separator behind it.
pub open spec fn share_between(path: Seq<char>, from: int, to: int) -> bool {
    exists|a: int, b: int|
        {
            &&& from < a
            &&& a + 1 < b < to <= path.len()
            &&& #[trigger] is_separator(path[a])
            &&& #[trigger] is_separator(path[b])
        }
}

/// Whether what stands behind the position of a path is, on every system, neither a drive nor a
/// server, a share or a device.
pub open spec fn is_below_root(path: Seq<char>, start: int) -> bool {
    ||| !begins_twice(path)
    ||| {
        &&& path.len() > 2
        &&& !is_separator(path[2])
        &&& path[2] != '?'
        &&& path[2] != '.'
        &&& share_between(path, 2, start)
    }
    ||| {
        &&& is_verbatim(path)
        &&& 7 <= start <= path.len()
        &&& 'a' <= path[4] <= 'z' || 'A' <= path[4] <= 'Z'
        &&& path[5] == ':'
        &&& path[6] == '\\'
    }
}

/// Whether a path ends with the name of a file on every system: its last part is a plain name,
/// and belongs to no drive, share or device. What stands before it may be anything, also parts
/// that lead upwards or nowhere.
pub open spec fn ends_in_name(path: Seq<char>) -> bool {
    plain_name(last_part(path)) && is_below_root(path, last_part_start(path))
}

/// Whether the character of a text is a slash, or a point that is a part of its own so far.
pub open spec fn leads_nowhere_at(t: Seq<char>, i: int) -> bool {
    t[i] == '/' || (t[i] == '.' && i > 0 && t[i - 1] == '/')
}

/// Whether the end of a path leads nowhere: it is empty, or slashes with at most a point behind
/// each.
pub open spec fn leads_nowhere(t: Seq<char>) -> bool {
    forall|i: int| 0 <= i < t.len() ==> #[trigger] leads_nowhere_at(t, i)
}

/// Whether a path names a file on every system, with the name up to the position: behind it
/// nothing follows but slashes and points that lead nowhere.
pub open spec fn names_file(path: Seq<char>, k: int) -> bool {
    &&& 0 < k <= path.len()
    &&& ends_in_name(path.take(k))
    &&& leads_nowhere(path.skip(k))
    &&& k == path.len() || !is_verbatim(path)
}

/// Whether a path leads to a directory above.
pub open spec fn leads_up(path: Seq<char>) -> bool {
    path == ".."@ || ends_with(path, "/.."@)
}

/// Whether a path names no file on any system: it is empty, it is a root or the directory
/// itself, or it leads upwards at its end.
pub open spec fn names_no_file(path: Seq<char>) -> bool {
    &&& !begins_twice(path)
    &&& {
        ||| leads_nowhere(path)
        ||| path[0] == '.' && leads_nowhere(path.skip(1))
        ||| exists|k: int|
            0 < k <= path.len() && #[trigger] leads_up(path.take(k)) && leads_nowhere(path.skip(k))
    }
}

/// Whether nothing but separators and points stands behind the position in a path, so that the
/// name of a file may end there.
pub open spec fn may_end_at(path: Seq<char>, k: int) -> bool {
    &&& 0 < k <= path.len()
    &&& forall|i: int| k <= i < path.len() ==> is_separator(#[trigger] path[i]) || path[i] == '.'
}

/// Whether the second path is the first one with the end behind the name of its file.
pub open spec fn extended(path: Seq<char>, end: Seq<char>, r: Seq<char>) -> bool {
    exists|k: int| #[trigger] may_end_at(path, k) && r == path.take(k) + end
}

/// Whether the second path is the name in the directory of the first one. Which separator comes
/// between depends on the system, and so does whether one does, where the path ends with a
/// character that separates on some systems only.
pub open spec fn joined(path: Seq<char>, name: Seq<char>, r: Seq<char>) -> bool {
    let separated = r == path + "/"@ + name || r == path + "\\"@ + name;
    if path.len() == 0 || path.last() == '/' {
        r == path + name
    } else if path.last() == '\\' || path.last() == ':' {
        r == path + name || separated
    } else {
        separated
    }
}

/// `Path::with_added_extension` of the standard library, as text: the path with a point and the
/// extension behind the name of its file; the path itself, where it names no file. Which of the
/// two comes, where only some systems take the path for that of a file, is not said here.
#[verifier::external_body]
fn with_added_extension(path: &str, extension: &str) -> (r: String)
    requires
        plain_name(extension@),
    ensures
        forall|k: int| #[trigger] names_file(path@, k) ==> r@ == path@.take(k) + "."@ + extension@,
        names_no_file(path@) ==> r@ == path@,
        r@ == path@ || extended(path@, "."@ + extension@, r@),
{
    std::path::Path::new(path).with_added_extension(extension).to_string_lossy().into_owned()
}

/// `Path::join` of the standard library, as text, for a plain name: the name in the directory of
/// the path. A path that one system takes word for word is tidied there, of which only the end
/// is said here.
#[verifier::external_body]
fn join_name(path: &str, name: &str) -> (r: String)
    requires
        plain_name(name@),
    ensures
        !is_verbatim(path@) ==> joined(path@, name@, r@),
        ends_with(r@, name@),
{
    std::path::Path::new(path).join(name).to_string_lossy().into_owned()
}

/// The name of a public key's file, for that of the private key, if there is one.
pub open spec fn public_name(name: Option<Seq<char>>) -> Seq<char> {
    match name {
        Some(n) => n + ".pub"@,
        None => "id_ed25519"@ + ".pub"@,
    }
}

/// The name of a public key's file.
pub fn public_key_file_name(name: Option<&str>) -> (r: String)
    ensures
        r@ == public_name(
            match name {
                Some(n) => Some(n@),
                None => None,
            },
        ),
{
    match name {
        Some(n) => text::join(n, ".pub"),
        None => text::join("id_ed25519", ".pub"),
    }
}

/// Whether the second path is where the public key for the first one goes. A path that names a
/// file on every system gets `.pub` behind the name, and so stands beside the first one. A path
/// that names none on any system is taken for a directory, where the key has a name of its own.
/// For any other path it is one of the two, which depends on the system; where one system takes
/// the path word for word, only the end of the second kind is said.
pub open spec fn is_public_path(private_path: Seq<char>, r: Seq<char>) -> bool {
    let own = public_name(None);
    &&& forall|k: int| #[trigger] names_file(private_path, k) ==> r == private_path.take(k)
        + ".pub"@
    &&& names_no_file(private_path) ==> joined(private_path, own, r)
    &&& {
        ||| extended(private_path, ".pub"@, r)
        ||| joined(private_path, own, r)
        ||| is_verbatim(private_path) && ends_with(r, own)
    }
}

proof fn lemma_pub()
    ensures
        "."@ + "pub"@ == ".pub"@,
        plain_name("pub"@),
        plain_name(public_name(None)),
        ends_with(public_name(None), ".pub"@),
{
    reveal_strlit(".");
    reveal_strlit("..");
    reveal_strlit("pub");
    reveal_strlit(".pub");
    reveal_strlit("id_ed25519");
    assert("."@ + "pub"@ =~= ".pub"@);
    let s = public_name(None);
    assert(s.len() == 14);
    assert forall|i: int| 0 <= i < s.len() implies s[i] != '/' && s[i] != '\\' && s[i] != ':' by {
        if i < 10 {
            assert(s[i] == "id_ed25519"@[i]);
        } else {
            assert(s[i] == ".pub"@[i - 10]);
        }
    }
    assert(s.skip(10) =~= ".pub"@);
}

proof fn lemma_ends_with(s: Seq<char>, middle: Seq<char>, end: Seq<char>)
    requires
        ends_with(s, middle),
        ends_with(middle, end),
    ensures
        ends_with(s, end),
{
    assert(s.skip(s.len() - end.len()) =~= s.skip(s.len() - middle.len()).skip(
        middle.len() - end.len(),
    ));
}

proof fn lemma_verbatim_begins_twice(path: Seq<char>)
    requires
        is_verbatim(path),
    ensures
        begins_twice(path),
{
    reveal_strlit("\\\\?\\");
    let start = path.subrange(0, 4);
    assert(start[0] == path[0] && start[1] == path[1]);
}

proof fn lemma_extended_differs(path: Seq<char>, k: int)
    requires
        may_end_at(path, k),
    ensures
        path.take(k) + ".pub"@ != path,
{
    reveal_strlit(".pub");
    let r = path.take(k) + ".pub"@;
    assert(r[k + 1] == 'p');
    if r == path {
        assert(is_separator(path[k + 1]) || path[k + 1] == '.');
    }
}

proof fn lemma_named_file_may_end(path: Seq<char>, k: int)
    requires
        names_file(path, k),
    ensures
        may_end_at(path, k),
{
    assert forall|i: int| k <= i < path.len() implies is_separator(#[trigger] path[i]) || path[i]
        == '.' by {
        assert(leads_nowhere_at(path.skip(k), i - k));
    }
}

/// Where the public key goes: beside the private key, with `.pub` behind its name; a path that
/// names no file is taken for a directory, and the key gets a name of its own there.
pub fn public_key_path(private_path: &str) -> (r: String)
    ensures
        is_public_path(private_path@, r@),
{
    proof {
        lemma_pub();
    }
    let named = with_added_extension(private_path, "pub");
    proof {
        assert forall|k: int| #[trigger] names_file(private_path@, k) implies named@
            == private_path@.take(k) + ".pub"@ && named@ != private_path@ by {
            assert(private_path@.take(k) + "."@ + "pub"@ =~= private_path@.take(k) + ".pub"@);
            lemma_named_file_may_end(private_path@, k);
            lemma_extended_differs(private_path@, k);
        }
    }
    if !text::same_text(named.as_str(), private_path) {
        return named;
    }
    proof {
        if is_verbatim(private_path@) {
            lemma_verbatim_begins_twice(private_path@);
        }
    }
    join_name(private_path, public_key_file_name(None).as_str())
}

proof fn lemma_last_part_start(path: Seq<char>)
    ensures
        0 <= last_part_start(path) <= path.len(),
    decreases path.len(),
{
    if path.len() > 0 {
        lemma_last_part_start(path.drop_last());
    }
}

proof fn lemma_last_part_grows(path: Seq<char>, c: char)
    requires
        !is_separator(c),
        c != ':',
    ensures
        last_part_start(path.push(c)) == last_part_start(path),
{
    assert(path.push(c).drop_last() =~= path);
}

proof fn lemma_last_part_of_point(path: Seq<char>)
    requires
        path.len() >= 2,
        path.last() == '.',
        path[path.len() - 2] == '/',
    ensures
        last_part(path) == "."@,
{
    reveal_strlit(".");
    reveal_with_fuel(last_part_start, 3);
    assert(path.drop_last().last() == '/');
    assert(path.skip(path.len() - 1) =~= "."@);
}

proof fn lemma_last_part_of_parent(path: Seq<char>)
    requires
        leads_up(path),
    ensures
        last_part(path) == ".."@,
        path.len() >= 2,
        path.last() == '.',
        path[path.len() - 2] == '.',
{
    reveal_strlit("..");
    reveal_strlit("/..");
    reveal_with_fuel(last_part_start, 4);
    let n = path.len() as int;
    if path == ".."@ {
        assert(path.drop_last().last() == '.');
        assert(path.drop_last().drop_last().len() == 0);
        assert(path.skip(0) =~= ".."@);
    } else {
        let end = path.skip(n - 3);
        assert(end[0] == path[n - 3] && end[1] == path[n - 2] && end[2] == path[n - 1]);
        assert(path.drop_last().last() == '.');
        assert(path.drop_last().drop_last().last() == '/');
        assert(path.skip(n - 2) =~= ".."@);
    }
}

/// Where a path ends with a name up to one position, no end of a path that leads nowhere
/// reaches back beyond it.
proof fn lemma_name_is_not_nowhere(path: Seq<char>, k: int, j: int)
    requires
        names_file(path, k),
        0 <= j < k,
    ensures
        !leads_nowhere(path.skip(j)),
{
    let p = path.take(k);
    if leads_nowhere(path.skip(j)) {
        assert(leads_nowhere_at(path.skip(j), k - 1 - j));
        lemma_last_part_start(p);
        reveal_with_fuel(last_part_start, 2);
        if p.last() == '/' {
            assert(last_part(p).len() == 0);
        } else {
            lemma_last_part_of_point(p);
        }
    }
}

/// A path names one file or none: at most one position ends a name, and a path that names a file
/// on every system is none that names no file on any.
pub proof fn law_path_names_one_file_or_none(path: Seq<char>, k: int)
    requires
        names_file(path, k),
    ensures
        forall|j: int| #[trigger] names_file(path, j) ==> j == k,
        !names_no_file(path),
{
    assert forall|j: int| #[trigger] names_file(path, j) implies j == k by {
        if j < k {
            lemma_name_is_not_nowhere(path, k, j);
        } else if k < j {
            lemma_name_is_not_nowhere(path, j, k);
        }
    }
    assert(path.skip(0) =~= path);
    lemma_name_is_not_nowhere(path, k, 0);
    if path[0] == '.' && leads_nowhere(path.skip(1)) {
        if k > 1 {
            lemma_name_is_not_nowhere(path, k, 1);
        } else {
            reveal_strlit(".");
            reveal_with_fuel(last_part_start, 2);
            assert(path.take(1) =~= "."@);
            assert(last_part("."@) =~= "."@);
        }
    }
    assert forall|j: int| 0 < j <= path.len() && #[trigger] leads_up(path.take(j))
        && leads_nowhere(path.skip(j)) implies false by {
        lemma_last_part_of_parent(path.take(j));
        if j < k {
            lemma_name_is_not_nowhere(path, k, j);
        } else if k < j {
            assert(leads_nowhere_at(path.skip(k), j - 1 - k));
        }
    }
}

proof fn lemma_longer_name(file: Seq<char>, r: Seq<char>)
    requires
        ends_in_name(file),
        r == file + ".pub"@,
        last_part_start(r) == last_part_start(file),
        last_part(r) == last_part(file) + ".pub"@,
    ensures
        names_file(r, r.len() as int),
{
    reveal_strlit(".pub");
    reveal_strlit(".");
    reveal_strlit("..");
    let name = last_part(r);
    let n = last_part(file).len() as int;
    let start = last_part_start(file);
    lemma_last_part_start(file);
    assert(plain_name(name)) by {
        assert(name.len() > 2 && "."@.len() == 1 && ".."@.len() == 2);
        assert forall|i: int| 0 <= i < name.len() implies name[i] != '/' && name[i] != '\\'
            && name[i] != ':' by {
            if i < n {
                assert(name[i] == last_part(file)[i]);
            } else {
                assert(name[i] == ".pub"@[i - n]);
            }
        }
    }
    assert(is_below_root(r, start)) by {
        assert(forall|i: int| 0 <= i < file.len() ==> r[i] == #[trigger] file[i]);
        if file.len() == 1 {
            assert(r[1] == '.');
        }
        if share_between(file, 2, start) {
            let (a, b) = choose|a: int, b: int|
                {
                    &&& 2 < a
                    &&& a + 1 < b < start <= file.len()
                    &&& #[trigger] is_separator(file[a])
                    &&& #[trigger] is_separator(file[b])
                };
            assert(is_separator(r[a]) && is_separator(r[b]));
        }
        if is_verbatim(file) {
            reveal_strlit("\\\\?\\");
            assert(r.subrange(0, 4) =~= file.subrange(0, 4));
        }
    }
    assert(r.take(r.len() as int) =~= r);
}

/// The public key of a path that names a file stands in the same place, and its name is that of
/// the private key with `.pub` behind it; so it never takes the place of the private key.
pub proof fn law_public_key_stands_beside(private_path: Seq<char>, k: int, r: Seq<char>)
    requires
        names_file(private_path, k),
        is_public_path(private_path, r),
    ensures
        r != private_path,
        ({
            let file = private_path.take(k);
            let start = last_part_start(file);
            &&& r.take(start) == file.take(start)
            &&& last_part(r) == last_part(file) + ".pub"@
            &&& names_file(r, r.len() as int)
        }),
{
    reveal_strlit(".pub");
    let file = private_path.take(k);
    let n = last_part_start(file);
    lemma_last_part_start(file);
    let p1 = file.push('.');
    let p2 = p1.push('p');
    let p3 = p2.push('u');
    lemma_last_part_grows(file, '.');
    lemma_last_part_grows(p1, 'p');
    lemma_last_part_grows(p2, 'u');
    lemma_last_part_grows(p3, 'b');
    assert(r =~= p3.push('b'));
    assert(r.take(n) =~= file.take(n));
    assert(r.skip(n) =~= file.skip(n) + ".pub"@);
    lemma_named_file_may_end(private_path, k);
    lemma_extended_differs(private_path, k);
    lemma_longer_name(file, r);
}

/// Whatever the path, the public key never takes the place of the private key, and its path
/// ends with `.pub`, unless one system takes the path word for word.
pub proof fn law_private_key_is_not_overwritten(private_path: Seq<char>, r: Seq<char>)
    requires
        is_public_path(private_path, r),
        !is_verbatim(private_path),
    ensures
        r != private_path,
        ends_with(r, ".pub"@),
{
    lemma_pub();
    let own = public_name(None);
    if extended(private_path, ".pub"@, r) {
        let k = choose|k: int| #[trigger]
            may_end_at(private_path, k) && r == private_path.take(k) + ".pub"@;
        lemma_extended_differs(private_path, k);
        assert(r.skip(k) =~= ".pub"@);
    } else {
        reveal_strlit("/");
        reveal_strlit("\\");
        assert(r.len() > private_path.len());
        assert(r.skip(r.len() - own.len()) =~= own);
        lemma_ends_with(r, own, ".pub"@);
    }
}

/// A comment is written as it is given, also with white space around it; only a blank one is left
/// out.
pub proof fn law_comment_is_kept_as_it_is(comment: Seq<char>)
    ensures
        kept_comment(comment) == comment || kept_comment(comment).len() == 0,
        kept_comment(comment).len() > 0 <==> !blank(comment),
        (exists|i: int| 0 <= i < comment.len() && !text::white_space(#[trigger] comment[i]))
            ==> kept_comment(comment) == comment,
{
    if exists|i: int| 0 <= i < comment.len() && !text::white_space(#[trigger] comment[i]) {
        let i = choose|i: int| 0 <= i < comment.len() && !text::white_space(#[trigger] comment[i]);
        text::lemma_not_blank(comment, i);
    }
    if comment.len() == 0 {
        assert(text::trimmed(comment) =~= Seq::<char>::empty());
    }
}

/// The public file is the line, and a line feed behind it.
pub proof fn law_public_file_is_one_line(line: Seq<char>)
    ensures
        public_file(line).drop_last() == line,
        public_file(line).last() == '\n',
        public_file(line).len() == line.len() + 1,
{
    reveal_strlit("\n");
    assert(public_file(line).drop_last() =~= line);
}

/// An error says what was being done and ends with its cause; what was being done can be told
/// apart.
pub proof fn law_key_error_tells_its_cause(stage: KeyStage, other: KeyStage, detail: Seq<char>)
    ensures
        text::starts_with(error_text(stage, detail), stage.text()),
        ends_with(error_text(stage, detail), ": "@ + detail),
        error_text(stage, detail).len() == stage.text().len() + 2 + detail.len(),
        stage.text() == other.text() <==> stage == other,
{
    let whole = error_text(stage, detail);
    reveal_strlit(": ");
    assert(whole.subrange(0, stage.text().len() as int) =~= stage.text());
    assert(whole.skip(whole.len() - (2 + detail.len())) =~= ": "@ + detail);
    reveal_strlit("生成 Ed25519 密钥失败");
    reveal_strlit("写入私钥失败");
    reveal_strlit("序列化公钥失败");
    assert("生成 Ed25519 密钥失败"@[0] == '生');
    assert("写入私钥失败"@[0] == '写');
    assert("序列化公钥失败"@[0] == '序');
}

/// The name of a public key's file is that of the private key with `.pub` behind it; a key without
/// a name gets one of its own.
pub proof fn law_public_name_ends_in_pub(name: Option<Seq<char>>)
    ensures
        ends_with(public_name(name), ".pub"@),
        name matches Some(n) ==> public_name(name).take(n.len() as int) == n && public_name(name).len()
            == n.len() + 4,
        name is None ==> public_name(name) == "id_ed25519.pub"@,
{
    reveal_strlit(".pub");
    reveal_strlit("id_ed25519");
    reveal_strlit("id_ed25519.pub");
    let whole = public_name(name);
    assert(whole.skip(whole.len() - 4) =~= ".pub"@);
    match name {
        Some(n) => {
            assert(whole.take(n.len() as int) =~= n);
        },
        None => {
            assert(whole =~= "id_ed25519.pub"@);
        },
    }
}

/// A pair is made exactly where both the key and its line can be written; then the files hold the
/// two for the comment that is kept, and nothing else does.
pub proof fn law_pair_holds_key_and_line(
    pem: Seq<char>,
    private_path: Seq<char>,
    comment: Seq<char>,
    r: Result<KeyPair, KeyError>,
)
    requires
        is_pair_of(pem, private_path, comment, r),
    ensures
        ({
            let kept = if blank(comment) {
                Seq::empty()
            } else {
                comment
            };
            &&& r is Ok <==> commented_key(pem, kept) is Some && public_line(pem, kept) is Some
            &&& r matches Ok(k) ==> {
                &&& commented_key(pem, kept) == Some(k.private_file@)
                &&& public_line(pem, kept) == Some(k.public_file@.drop_last())
                &&& k.public_file@.last() == '\n'
            }
            &&& r matches Err(e) ==> {
                &&& e.stage == KeyStage::WritePrivate <==> commented_key(pem, kept) is None
                &&& e.stage == KeyStage::WritePrivate || e.stage == KeyStage::WritePublic
            }
        }),
{
    if let Some(line) = public_line(pem, kept_comment(comment)) {
        law_public_file_is_one_line(line);
    }
}

} // verus!
