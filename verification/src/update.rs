//! Self-update: which release file belongs to this build, where to download
//! it, the version tag in GitHub's answer, and quoting a path for the shell
//! helper that swaps the application bundle.

use vstd::prelude::*;
use vstd::string::*;
use crate::config::opt_view;
use crate::text::{chars_of, str_eq, string_of};
use crate::error::Error;

verus! {

/// Ceiling on the size of a downloaded release file (64 MiB).
pub const MAX_ASSET_BYTES: usize = 64 * 1024 * 1024;

/// The direct link to a release file.
pub open spec fn spec_asset_url(repo: Seq<char>, tag: Seq<char>, asset: Seq<char>) -> Seq<char> {
    "https://github.com/"@ + repo + "/releases/download/"@ + tag + "/"@ + asset
}

/// The direct link to a release file (see [`spec_asset_url`]).
pub fn asset_url(repo: &str, tag: &str, asset: &str) -> (u: String)
    ensures
        u@ == spec_asset_url(repo@, tag@, asset@),
{
    let mut u = String::from_str("https://github.com/");
    u.append(repo);
    u.append("/releases/download/");
    u.append(tag);
    u.append("/");
    u.append(asset);
    u
}

/// The release file of a build for operating system `os`, architecture
/// `arch`, windowed or terminal; `None` for a platform that is not released
/// (better no update than a foreign file).
pub open spec fn spec_asset_name(os: Seq<char>, arch: Seq<char>, gui: bool) -> Option<Seq<char>> {
    if os == "linux"@ && arch == "x86_64"@ {
        Some(if gui { "bemyvpn-linux-x86_64.AppImage"@ } else { "bemyvpn-linux-x86_64-terminal"@ })
    } else if os == "macos"@ && arch == "aarch64"@ {
        Some(if gui { "bemyvpn-macos-arm64.dmg"@ } else { "bemyvpn-macos-arm64-terminal"@ })
    } else if os == "windows"@ && arch == "x86_64"@ {
        Some(if gui { "bemyvpn-windows-x86_64.exe"@ } else { "bemyvpn-windows-x86_64-terminal.exe"@ })
    } else if os == "linux"@ && arch == "aarch64"@ {
        Some(if gui { "bemyvpn-linux-arm64.AppImage"@ } else { "bemyvpn-linux-arm64-terminal"@ })
    } else if os == "windows"@ && arch == "aarch64"@ {
        Some(if gui { "bemyvpn-windows-arm64.exe"@ } else { "bemyvpn-windows-arm64-terminal.exe"@ })
    } else if os == "macos"@ && arch == "x86_64"@ {
        Some(if gui { "bemyvpn-macos-x86_64.dmg"@ } else { "bemyvpn-macos-x86_64-terminal"@ })
    } else {
        None
    }
}

fn pick(gui: bool, windowed: &'static str, terminal: &'static str) -> (r: Option<&'static str>)
    ensures
        r matches Some(s) && s@ == if gui {
            windowed@
        } else {
            terminal@
        },
{
    if gui {
        Some(windowed)
    } else {
        Some(terminal)
    }
}

/// The release file of a build (see [`spec_asset_name`]).
pub fn asset_name(os: &str, arch: &str, gui: bool) -> (r: Option<&'static str>)
    ensures
        match r {
            Some(s) => spec_asset_name(os@, arch@, gui) == Some(s@),
            None => spec_asset_name(os@, arch@, gui) is None,
        },
{
    let linux = str_eq(os, "linux");
    let macos = str_eq(os, "macos");
    let windows = str_eq(os, "windows");
    let x86 = str_eq(arch, "x86_64");
    let arm = str_eq(arch, "aarch64");
    if linux && x86 {
        pick(gui, "bemyvpn-linux-x86_64.AppImage", "bemyvpn-linux-x86_64-terminal")
    } else if macos && arm {
        pick(gui, "bemyvpn-macos-arm64.dmg", "bemyvpn-macos-arm64-terminal")
    } else if windows && x86 {
        pick(gui, "bemyvpn-windows-x86_64.exe", "bemyvpn-windows-x86_64-terminal.exe")
    } else if linux && arm {
        pick(gui, "bemyvpn-linux-arm64.AppImage", "bemyvpn-linux-arm64-terminal")
    } else if windows && arm {
        pick(gui, "bemyvpn-windows-arm64.exe", "bemyvpn-windows-arm64-terminal.exe")
    } else if macos && x86 {
        pick(gui, "bemyvpn-macos-x86_64.dmg", "bemyvpn-macos-x86_64-terminal")
    } else {
        None
    }
}

/// Whether `t` occurs in `s`.
pub open spec fn has_piece(s: Seq<char>, t: Seq<char>) -> bool {
    exists|i: int| 0 <= i && i + t.len() <= s.len() && #[trigger] s.subrange(i, i + t.len()) == t
}

proof fn lemma_name_pieces(os: Seq<char>, label: Seq<char>, r1: Seq<char>, r2: Seq<char>)
    ensures
        ({
            let n = "bemyvpn-"@ + os + "-"@ + label + r1 + r2;
            has_piece(n, os) && has_piece(n, label) && has_piece(n, r1)
        }),
{
    reveal_strlit("bemyvpn-");
    reveal_strlit("-");
    let n = "bemyvpn-"@ + os + "-"@ + label + r1 + r2;
    let a: int = 8 + os.len() as int;
    let b: int = a + 1 + label.len();
    assert(n.subrange(8, a) =~= os);
    assert(n.subrange(a + 1, b) =~= label);
    assert(n.subrange(b, b + r1.len()) =~= r1);
}

proof fn lemma_platform_names_differ()
    ensures
        "linux"@ != "macos"@,
        "linux"@ != "windows"@,
        "macos"@ != "windows"@,
        "x86_64"@ != "aarch64"@,
{
    reveal_strlit("linux");
    reveal_strlit("macos");
    reveal_strlit("windows");
    reveal_strlit("x86_64");
    reveal_strlit("aarch64");
    assert("linux"@[0] != "macos"@[0]);
    assert("linux"@[0] != "windows"@[0]);
    assert("macos"@[0] != "windows"@[0]);
    assert("x86_64"@[0] != "aarch64"@[0]);
}

proof fn lemma_asset_linux_x86_64(os: Seq<char>, arch: Seq<char>, gui: bool)
    requires
        os == "linux"@,
        arch == "x86_64"@,
    ensures
        spec_asset_name(os, arch, gui) matches Some(n) && has_piece(n, os) && (arch == "aarch64"@ ==> has_piece(
            n,
            "arm64"@,
        )) && (arch == "x86_64"@ ==> has_piece(n, "x86_64"@)) && (!gui ==> has_piece(n, "-terminal"@)),
{
    lemma_platform_names_differ();
    reveal_strlit("bemyvpn-");
    reveal_strlit("-");
    reveal_strlit("linux");
    reveal_strlit("x86_64");
    reveal_strlit("x86_64");
    reveal_strlit("bemyvpn-linux-x86_64.AppImage");
    reveal_strlit("bemyvpn-linux-x86_64-terminal");
    reveal_strlit(".AppImage");
    reveal_strlit("-terminal");
    reveal_strlit("linux");
    reveal_strlit("macos");
    reveal_strlit("windows");
    reveal_strlit("x86_64");
    reveal_strlit("aarch64");
    if gui {
        assert("bemyvpn-linux-x86_64.AppImage"@ =~= "bemyvpn-"@ + os + "-"@ + "x86_64"@ + ".AppImage"@ + Seq::<char>::empty());
        lemma_name_pieces(os, "x86_64"@, ".AppImage"@, Seq::<char>::empty());
    } else {
        assert("bemyvpn-linux-x86_64-terminal"@ =~= "bemyvpn-"@ + os + "-"@ + "x86_64"@ + "-terminal"@ + Seq::<char>::empty());
        lemma_name_pieces(os, "x86_64"@, "-terminal"@, Seq::<char>::empty());
    }
}

proof fn lemma_asset_macos_aarch64(os: Seq<char>, arch: Seq<char>, gui: bool)
    requires
        os == "macos"@,
        arch == "aarch64"@,
    ensures
        spec_asset_name(os, arch, gui) matches Some(n) && has_piece(n, os) && (arch == "aarch64"@ ==> has_piece(
            n,
            "arm64"@,
        )) && (arch == "x86_64"@ ==> has_piece(n, "x86_64"@)) && (!gui ==> has_piece(n, "-terminal"@)),
{
    lemma_platform_names_differ();
    reveal_strlit("bemyvpn-");
    reveal_strlit("-");
    reveal_strlit("macos");
    reveal_strlit("aarch64");
    reveal_strlit("arm64");
    reveal_strlit("bemyvpn-macos-arm64.dmg");
    reveal_strlit("bemyvpn-macos-arm64-terminal");
    reveal_strlit(".dmg");
    reveal_strlit("-terminal");
    reveal_strlit("linux");
    reveal_strlit("macos");
    reveal_strlit("windows");
    reveal_strlit("x86_64");
    reveal_strlit("aarch64");
    if gui {
        assert("bemyvpn-macos-arm64.dmg"@ =~= "bemyvpn-"@ + os + "-"@ + "arm64"@ + ".dmg"@ + Seq::<char>::empty());
        lemma_name_pieces(os, "arm64"@, ".dmg"@, Seq::<char>::empty());
    } else {
        assert("bemyvpn-macos-arm64-terminal"@ =~= "bemyvpn-"@ + os + "-"@ + "arm64"@ + "-terminal"@ + Seq::<char>::empty());
        lemma_name_pieces(os, "arm64"@, "-terminal"@, Seq::<char>::empty());
    }
}

proof fn lemma_asset_windows_x86_64(os: Seq<char>, arch: Seq<char>, gui: bool)
    requires
        os == "windows"@,
        arch == "x86_64"@,
    ensures
        spec_asset_name(os, arch, gui) matches Some(n) && has_piece(n, os) && (arch == "aarch64"@ ==> has_piece(
            n,
            "arm64"@,
        )) && (arch == "x86_64"@ ==> has_piece(n, "x86_64"@)) && (!gui ==> has_piece(n, "-terminal"@)),
{
    lemma_platform_names_differ();
    reveal_strlit("bemyvpn-");
    reveal_strlit("-");
    reveal_strlit("windows");
    reveal_strlit("x86_64");
    reveal_strlit("x86_64");
    reveal_strlit("bemyvpn-windows-x86_64.exe");
    reveal_strlit("bemyvpn-windows-x86_64-terminal.exe");
    reveal_strlit(".exe");
    reveal_strlit("-terminal");
    reveal_strlit("linux");
    reveal_strlit("macos");
    reveal_strlit("windows");
    reveal_strlit("x86_64");
    reveal_strlit("aarch64");
    reveal_strlit(".exe");
    if gui {
        assert("bemyvpn-windows-x86_64.exe"@ =~= "bemyvpn-"@ + os + "-"@ + "x86_64"@ + ".exe"@ + Seq::<char>::empty());
        lemma_name_pieces(os, "x86_64"@, ".exe"@, Seq::<char>::empty());
    } else {
        assert("bemyvpn-windows-x86_64-terminal.exe"@ =~= "bemyvpn-"@ + os + "-"@ + "x86_64"@ + "-terminal"@ + ".exe"@);
        lemma_name_pieces(os, "x86_64"@, "-terminal"@, ".exe"@);
    }
}

proof fn lemma_asset_linux_aarch64(os: Seq<char>, arch: Seq<char>, gui: bool)
    requires
        os == "linux"@,
        arch == "aarch64"@,
    ensures
        spec_asset_name(os, arch, gui) matches Some(n) && has_piece(n, os) && (arch == "aarch64"@ ==> has_piece(
            n,
            "arm64"@,
        )) && (arch == "x86_64"@ ==> has_piece(n, "x86_64"@)) && (!gui ==> has_piece(n, "-terminal"@)),
{
    lemma_platform_names_differ();
    reveal_strlit("bemyvpn-");
    reveal_strlit("-");
    reveal_strlit("linux");
    reveal_strlit("aarch64");
    reveal_strlit("arm64");
    reveal_strlit("bemyvpn-linux-arm64.AppImage");
    reveal_strlit("bemyvpn-linux-arm64-terminal");
    reveal_strlit(".AppImage");
    reveal_strlit("-terminal");
    reveal_strlit("linux");
    reveal_strlit("macos");
    reveal_strlit("windows");
    reveal_strlit("x86_64");
    reveal_strlit("aarch64");
    if gui {
        assert("bemyvpn-linux-arm64.AppImage"@ =~= "bemyvpn-"@ + os + "-"@ + "arm64"@ + ".AppImage"@ + Seq::<char>::empty());
        lemma_name_pieces(os, "arm64"@, ".AppImage"@, Seq::<char>::empty());
    } else {
        assert("bemyvpn-linux-arm64-terminal"@ =~= "bemyvpn-"@ + os + "-"@ + "arm64"@ + "-terminal"@ + Seq::<char>::empty());
        lemma_name_pieces(os, "arm64"@, "-terminal"@, Seq::<char>::empty());
    }
}

proof fn lemma_asset_windows_aarch64(os: Seq<char>, arch: Seq<char>, gui: bool)
    requires
        os == "windows"@,
        arch == "aarch64"@,
    ensures
        spec_asset_name(os, arch, gui) matches Some(n) && has_piece(n, os) && (arch == "aarch64"@ ==> has_piece(
            n,
            "arm64"@,
        )) && (arch == "x86_64"@ ==> has_piece(n, "x86_64"@)) && (!gui ==> has_piece(n, "-terminal"@)),
{
    lemma_platform_names_differ();
    reveal_strlit("bemyvpn-");
    reveal_strlit("-");
    reveal_strlit("windows");
    reveal_strlit("aarch64");
    reveal_strlit("arm64");
    reveal_strlit("bemyvpn-windows-arm64.exe");
    reveal_strlit("bemyvpn-windows-arm64-terminal.exe");
    reveal_strlit(".exe");
    reveal_strlit("-terminal");
    reveal_strlit("linux");
    reveal_strlit("macos");
    reveal_strlit("windows");
    reveal_strlit("x86_64");
    reveal_strlit("aarch64");
    reveal_strlit(".exe");
    if gui {
        assert("bemyvpn-windows-arm64.exe"@ =~= "bemyvpn-"@ + os + "-"@ + "arm64"@ + ".exe"@ + Seq::<char>::empty());
        lemma_name_pieces(os, "arm64"@, ".exe"@, Seq::<char>::empty());
    } else {
        assert("bemyvpn-windows-arm64-terminal.exe"@ =~= "bemyvpn-"@ + os + "-"@ + "arm64"@ + "-terminal"@ + ".exe"@);
        lemma_name_pieces(os, "arm64"@, "-terminal"@, ".exe"@);
    }
}

proof fn lemma_asset_macos_x86_64(os: Seq<char>, arch: Seq<char>, gui: bool)
    requires
        os == "macos"@,
        arch == "x86_64"@,
    ensures
        spec_asset_name(os, arch, gui) matches Some(n) && has_piece(n, os) && (arch == "aarch64"@ ==> has_piece(
            n,
            "arm64"@,
        )) && (arch == "x86_64"@ ==> has_piece(n, "x86_64"@)) && (!gui ==> has_piece(n, "-terminal"@)),
{
    lemma_platform_names_differ();
    reveal_strlit("bemyvpn-");
    reveal_strlit("-");
    reveal_strlit("macos");
    reveal_strlit("x86_64");
    reveal_strlit("x86_64");
    reveal_strlit("bemyvpn-macos-x86_64.dmg");
    reveal_strlit("bemyvpn-macos-x86_64-terminal");
    reveal_strlit(".dmg");
    reveal_strlit("-terminal");
    reveal_strlit("linux");
    reveal_strlit("macos");
    reveal_strlit("windows");
    reveal_strlit("x86_64");
    reveal_strlit("aarch64");
    if gui {
        assert("bemyvpn-macos-x86_64.dmg"@ =~= "bemyvpn-"@ + os + "-"@ + "x86_64"@ + ".dmg"@ + Seq::<char>::empty());
        lemma_name_pieces(os, "x86_64"@, ".dmg"@, Seq::<char>::empty());
    } else {
        assert("bemyvpn-macos-x86_64-terminal"@ =~= "bemyvpn-"@ + os + "-"@ + "x86_64"@ + "-terminal"@ + Seq::<char>::empty());
        lemma_name_pieces(os, "x86_64"@, "-terminal"@, Seq::<char>::empty());
    }
}

/// The release file names the build's own platform: the operating system,
/// the architecture (`arm64` for `aarch64`, `x86_64` for `x86_64`), and for
/// a terminal build the `-terminal` mark; and every released platform (Linux,
/// macOS, Windows on `x86_64` or `aarch64`) has its file.
pub proof fn law_asset_names_the_platform(os: Seq<char>, arch: Seq<char>, gui: bool)
    ensures
        spec_asset_name(os, arch, gui) matches Some(n) ==> has_piece(n, os) && (arch == "aarch64"@ ==> has_piece(
            n,
            "arm64"@,
        )) && (arch == "x86_64"@ ==> has_piece(n, "x86_64"@)) && (!gui ==> has_piece(n, "-terminal"@)),
        (os == "linux"@ || os == "macos"@ || os == "windows"@) && (arch == "x86_64"@ || arch == "aarch64"@)
            ==> spec_asset_name(os, arch, gui) is Some,
{
    if os == "linux"@ && arch == "x86_64"@ {
        lemma_asset_linux_x86_64(os, arch, gui);
    }
    if os == "macos"@ && arch == "aarch64"@ {
        lemma_asset_macos_aarch64(os, arch, gui);
    }
    if os == "windows"@ && arch == "x86_64"@ {
        lemma_asset_windows_x86_64(os, arch, gui);
    }
    if os == "linux"@ && arch == "aarch64"@ {
        lemma_asset_linux_aarch64(os, arch, gui);
    }
    if os == "windows"@ && arch == "aarch64"@ {
        lemma_asset_windows_aarch64(os, arch, gui);
    }
    if os == "macos"@ && arch == "x86_64"@ {
        lemma_asset_macos_x86_64(os, arch, gui);
    }
}

/// The body of a single-quoted shell literal: each `'` becomes `'\''`
/// (close, an escaped quote, reopen); everything else stands as it is.
pub open spec fn quote_body(s: Seq<char>) -> Seq<char>
    decreases s.len(),
{
    if s.len() == 0 {
        Seq::empty()
    } else {
        quote_body(s.drop_last()) + if s.last() == '\'' {
            seq!['\'', '\\', '\'', '\'']
        } else {
            seq![s.last()]
        }
    }
}

/// A path as a safe `/bin/sh` literal: single quotes close off everything
/// (`$`, backquotes, double quotes) but themselves, which are escaped.
pub fn sh_quote(p: &str) -> (q: String)
    ensures
        q@ == seq!['\''] + quote_body(p@) + seq!['\''],
{
    let cs = chars_of(p);
    let mut out: Vec<char> = Vec::new();
    out.push('\'');
    let mut i: usize = 0;
    while i < cs.len()
        invariant
            i <= cs@.len(),
            cs@ == p@,
            out@ == seq!['\''] + quote_body(cs@.take(i as int)),
        decreases cs@.len() - i,
    {
        let c = cs[i];
        proof {
            assert(cs@.take(i + 1).drop_last() =~= cs@.take(i as int));
            assert(cs@.take(i + 1).last() == c);
        }
        let ghost before = out@;
        if c == '\'' {
            out.push('\'');
            out.push('\\');
            out.push('\'');
            out.push('\'');
            assert(out@ =~= before + seq!['\'', '\\', '\'', '\'']);
        } else {
            out.push(c);
            assert(out@ =~= before + seq![c]);
        }
        i = i + 1;
        assert(out@ =~= seq!['\''] + quote_body(cs@.take(i as int)));
    }
    out.push('\'');
    assert(cs@.take(cs@.len() as int) =~= cs@);
    string_of(out.as_slice())
}

/// The `tag_name` string field of a JSON text, when the text is a JSON
/// document whose top level has that field as a string.
pub uninterp spec fn json_tag_name(json: Seq<char>) -> Option<Seq<char>>;

/// `serde_json::from_str` into a `serde_json::Value`, then the string field
/// `tag_name` (`Value::get`, `Value::as_str`). The result is named, not
/// described: it is whatever serde_json reads from the text.
#[verifier::external_body]
fn release_tag_field(json: &str) -> (r: Option<String>)
    ensures
        opt_view(r) == json_tag_name(json@),
{
    let v: serde_json::Value = serde_json::from_str(json).ok()?;
    v.get("tag_name")?.as_str().map(|t| t.to_string())
}

/// The release tag from the field read out of GitHub's answer: an empty tag
/// is no tag.
pub fn nonempty_tag(field: Option<String>) -> (r: Option<String>)
    ensures
        opt_view(r) == match opt_view(field) {
            Some(t) => if t.len() > 0 {
                Some(t)
            } else {
                None
            },
            None => None,
        },
{
    match field {
        Some(t) => if t.as_str().is_empty() {
            None
        } else {
            Some(t)
        },
        None => None,
    }
}

/// The release tag in GitHub's answer about the latest release, read by a
/// real JSON parser (a substring search would take the first occurrence of
/// the word anywhere in the answer).
pub fn tag_from_release_json(json: &str) -> (r: Option<String>)
    ensures
        opt_view(r) == match json_tag_name(json@) {
            Some(t) => if t.len() > 0 {
                Some(t)
            } else {
                None
            },
            None => None,
        },
{
    nonempty_tag(release_tag_field(json))
}

/// How many requests one download may make (GitHub answers the first one
/// with a redirection to its file store).
pub const MAX_REQUESTS: u32 = 5;

/// What the server answered to one request of a download.
#[derive(Debug)]
pub enum Answer {
    /// A redirection, with its target if the answer carried a readable one.
    Redirect(Option<String>),
    /// Success: the file follows in the body.
    Success,
    /// Any other status, as the HTTP library spells it.
    Refused(String),
}

/// What a download does after an answer.
#[derive(Debug)]
pub enum FetchStep {
    /// Request this address next.
    Follow(String),
    /// Read the body, chunk by chunk, within the size ceiling.
    ReadBody,
    /// Give up.
    Fail(Error),
}

/// The download's decision after the answer to request number `requests`
/// (from 1): follow a redirection while requests are left, read the body of
/// a success, and fail on anything else.
pub fn after_answer(requests: u32, a: Answer) -> (r: FetchStep)
    requires
        1 <= requests <= MAX_REQUESTS,
    ensures
        match a {
            Answer::Redirect(Some(l)) => if requests < MAX_REQUESTS {
                r matches FetchStep::Follow(u) && u@ == l@
            } else {
                r matches FetchStep::Fail(Error::Net(m)) && m@ == "слишком много перенаправлений"@
            },
            Answer::Redirect(None) => r matches FetchStep::Fail(Error::Net(m)) && m@
                == "перенаправление без адреса"@,
            Answer::Success => r is ReadBody,
            Answer::Refused(status) => r matches FetchStep::Fail(Error::Net(m)) && m@ == "сервер ответил "@
                + status@,
        },
{
    match a {
        Answer::Redirect(Some(l)) => if requests < MAX_REQUESTS {
            FetchStep::Follow(l)
        } else {
            FetchStep::Fail(Error::Net(String::from_str("слишком много перенаправлений")))
        },
        Answer::Redirect(None) => FetchStep::Fail(Error::Net(String::from_str("перенаправление без адреса"))),
        Answer::Success => FetchStep::ReadBody,
        Answer::Refused(status) => {
            let mut m = String::from_str("сервер ответил ");
            m.append(status.as_str());
            FetchStep::Fail(Error::Net(m))
        },
    }
}

/// One chunk of the body: kept while the whole stays within `max` bytes,
/// refused as soon as it would not (the ceiling counts before the chunk is
/// taken in, not after).
pub fn take_chunk(out: &mut Vec<u8>, chunk: &[u8], max: usize) -> (r: Result<(), Error>)
    ensures
        r is Ok <==> old(out)@.len() + chunk@.len() <= max,
        r is Ok ==> final(out)@ == old(out)@ + chunk@,
        r is Err ==> final(out)@ == old(out)@,
        r matches Err(e) ==> (e matches Error::Net(m) && m@ == "файл больше ожидаемого — отклонён"@),
{
    if chunk.len() > max || out.len() > max - chunk.len() {
        return Err(Error::Net(String::from_str("файл больше ожидаемого — отклонён")));
    }
    let ghost start = out@;
    let mut i: usize = 0;
    while i < chunk.len()
        invariant
            i <= chunk@.len(),
            out@ == start + chunk@.take(i as int),
        decreases chunk@.len() - i,
    {
        out.push(chunk[i]);
        i = i + 1;
        assert(out@ =~= start + chunk@.take(i as int));
    }
    assert(chunk@.take(chunk@.len() as int) =~= chunk@);
    Ok(())
}

/// The rest of the macOS helper script after its four settings: wait for the
/// application to exit, copy the new bundle out of the disk image, lift the
/// quarantine, swap the bundles (the old one back on failure) and start the
/// new one.
pub const BUNDLE_SCRIPT_BODY: &'static str = "\n# Ждём выхода приложения (до 30с), иначе подменять опасно.\ni=0\nwhile kill -0 \"$PID\" 2>/dev/null && [ $i -lt 60 ]; do sleep 0.5; i=$((i+1)); done\n\nMNT=\"$TMP/mnt\"\nmkdir -p \"$MNT\"\nhdiutil attach -nobrowse -quiet \"$DMG\" -mountpoint \"$MNT\"\nNEW=$(ls -d \"$MNT\"/*.app | head -1)\ncp -R \"$NEW\" \"$TMP/new.app\"\nhdiutil detach \"$MNT\" -quiet || true\n\nxattr -dr com.apple.quarantine \"$TMP/new.app\" 2>/dev/null || true\n\n# Атомарно: старое в сторону, новое на место. Не удалось — возвращаем старое.\nrm -rf \"$APP.old\"\nmv \"$APP\" \"$APP.old\"\nif ! mv \"$TMP/new.app\" \"$APP\"; then\n  mv \"$APP.old\" \"$APP\"\n  exit 1\nfi\nrm -rf \"$APP.old\"\nopen \"$APP\"\nrm -rf \"$TMP\"\n";

/// A path as a single-quoted shell literal (see [`sh_quote`]).
pub open spec fn spec_sh_quote(s: Seq<char>) -> Seq<char> {
    seq!['\''] + quote_body(s) + seq!['\'']
}

/// The macOS helper script that swaps the application bundle once process
/// `pid` has exited: its settings, each path quoted for the shell, then
/// [`BUNDLE_SCRIPT_BODY`].
pub open spec fn spec_bundle_script(app: Seq<char>, dmg: Seq<char>, tmp: Seq<char>, pid: u32) -> Seq<char> {
    "#!/bin/sh\nset -e\nAPP="@ + spec_sh_quote(app) + "\nDMG="@ + spec_sh_quote(dmg) + "\nTMP="@ + spec_sh_quote(tmp)
        + "\nPID="@ + crate::hosting::decimal(pid as nat) + BUNDLE_SCRIPT_BODY@
}

/// Build the macOS helper script (see [`spec_bundle_script`]).
pub fn bundle_script(app: &str, dmg: &str, tmp: &str, pid: u32) -> (s: String)
    ensures
        s@ == spec_bundle_script(app@, dmg@, tmp@, pid),
{
    let mut s = String::from_str("#!/bin/sh\nset -e\nAPP=");
    let qa = sh_quote(app);
    s.append(qa.as_str());
    s.append("\nDMG=");
    let qd = sh_quote(dmg);
    s.append(qd.as_str());
    s.append("\nTMP=");
    let qt = sh_quote(tmp);
    s.append(qt.as_str());
    s.append("\nPID=");
    let digits = string_of(crate::hosting::decimal_text(pid as u64).as_slice());
    s.append(digits.as_str());
    s.append(BUNDLE_SCRIPT_BODY);
    s
}

/// The Windows helper script: wait until the running program's file can be
/// moved aside to `bak`, put `new` in its place (the old one back on
/// failure), start it, and delete itself.
pub open spec fn spec_exe_update_script(me: Seq<char>, bak: Seq<char>, new: Seq<char>) -> Seq<char> {
    "@echo off\r\n:wait\r\ntimeout /t 1 /nobreak >nul\r\nmove /y \""@ + me + "\" \""@ + bak
        + "\" >nul 2>&1 || goto wait\r\nmove /y \""@ + new + "\" \""@ + me + "\" >nul 2>&1 || (move /y \""@ + bak
        + "\" \""@ + me + "\" >nul & exit /b 1)\r\nstart \"\" \""@ + me + "\"\r\ndel \"%~f0\"\r\n"@
}

/// Build the Windows helper script (see [`spec_exe_update_script`]).
pub fn exe_update_script(me: &str, bak: &str, new: &str) -> (s: String)
    ensures
        s@ == spec_exe_update_script(me@, bak@, new@),
{
    let mut s = String::from_str("@echo off\r\n:wait\r\ntimeout /t 1 /nobreak >nul\r\nmove /y \"");
    s.append(me);
    s.append("\" \"");
    s.append(bak);
    s.append("\" >nul 2>&1 || goto wait\r\nmove /y \"");
    s.append(new);
    s.append("\" \"");
    s.append(me);
    s.append("\" >nul 2>&1 || (move /y \"");
    s.append(bak);
    s.append("\" \"");
    s.append(me);
    s.append("\" >nul & exit /b 1)\r\nstart \"\" \"");
    s.append(me);
    s.append("\"\r\ndel \"%~f0\"\r\n");
    s
}

} // verus!
