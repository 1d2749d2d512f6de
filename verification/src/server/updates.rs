//! Client updates. The deployment drops the installer and its signature into a
//! folder; the relay offers the newest one it finds there. Nothing here is
//! trusted by the client on its own: the installer is verified against the public
//! key built into the app.
use vstd::prelude::*;

use crate::server::errors::ApiError;
#[allow(unused_imports)]
use crate::text::{
    all_digits, decimal, has_prefix, has_suffix, is_digit, lemma_split_has_a_piece, number_in, split_at_char,
    text_at, texts, trimmed, without_leading, without_trailing,
};
use crate::text::{
    join3, parse_u64, split, starts_with, strip_prefix, strip_suffix, trim, trim_leading,
    trim_trailing, write_decimal,
};

verus! {

/// The number that a text stands for, if it fits 64 bits.
pub open spec fn part_in(text: Seq<char>) -> Option<u64> {
    match number_in(text) {
        Some(n) if n <= u64::MAX => Some(n as u64),
        _ => None,
    }
}

/// The version that a text stands for: three numbers between dots.
pub open spec fn version_in(text: Seq<char>) -> Option<(u64, u64, u64)> {
    let parts = split_at_char(text, '.');
    if parts.len() == 3 && part_in(parts[0]) is Some && part_in(parts[1]) is Some && part_in(
        parts[2],
    ) is Some {
        Some((part_in(parts[0])->0, part_in(parts[1])->0, part_in(parts[2])->0))
    } else {
        None
    }
}

/// What stands between a beginning and an end, where a text has both and they do
/// not overlap.
pub open spec fn between(text: Seq<char>, front: Seq<char>, back: Seq<char>) -> Option<Seq<char>> {
    if has_prefix(text, front) && has_suffix(text.skip(front.len() as int), back) {
        Some(text.subrange(front.len() as int, text.len() - back.len()))
    } else {
        None
    }
}

/// The version of the installer that a file name stands for.
pub open spec fn version_of_installer(name: Seq<char>) -> Option<(u64, u64, u64)> {
    match between(name, "Hush_"@, "_x64-setup.exe"@) {
        Some(version) => version_in(version),
        None => None,
    }
}

/// Whether a version is later than another.
pub open spec fn newer(a: (u64, u64, u64), b: (u64, u64, u64)) -> bool {
    a.0 > b.0 || (a.0 == b.0 && (a.1 > b.1 || (a.1 == b.1 && a.2 > b.2)))
}

/// The version that a text stands for.
pub fn parse_version(version: &str) -> (parsed: Option<(u64, u64, u64)>)
    ensures
        parsed == version_in(version@),
{
    let parts = split(version, '.');
    assert(texts(parts@).len() == parts@.len());
    if parts.len() != 3 {
        return None;
    }
    proof {
        assert(texts(parts@)[0] == parts@[0]@);
        assert(texts(parts@)[1] == parts@[1]@);
        assert(texts(parts@)[2] == parts@[2]@);
    }
    let major: u64 = parse_u64(&parts[0])?;
    let minor: u64 = parse_u64(&parts[1])?;
    let patch: u64 = parse_u64(&parts[2])?;
    Some((major, minor, patch))
}

/// `Hush_1.0.2_x64-setup.exe`, and nothing else: the name is used to build a
/// path, so it must not be able to point anywhere but that folder.
pub fn installer_version(file_name: &str) -> (version: Option<(u64, u64, u64)>)
    ensures
        version == version_of_installer(file_name@),
{
    let rest = match strip_prefix(file_name, "Hush_") {
        Some(rest) => rest,
        None => {
            return None;
        },
    };
    let version = match strip_suffix(&rest, "_x64-setup.exe") {
        Some(version) => version,
        None => {
            return None;
        },
    };
    proof {
        let front = "Hush_"@.len() as int;
        let back = "_x64-setup.exe"@.len() as int;
        assert(version@ =~= file_name@.subrange(front, file_name@.len() - back));
    }
    parse_version(&version)
}

/// A file of the update folder: its name, and whether its signature lies beside
/// it.
pub struct FoundFile {
    pub name: String,
    pub signed: bool,
}

/// Whether a file can be offered. Without the signature the client would refuse
/// the download anyway.
pub open spec fn can_be_offered(file: FoundFile) -> bool {
    file.signed && version_of_installer(file.name@) is Some
}

/// Whether a version is later than another.
fn is_newer(a: (u64, u64, u64), b: (u64, u64, u64)) -> (yes: bool)
    ensures
        yes == newer(a, b),
{
    a.0 > b.0 || (a.0 == b.0 && (a.1 > b.1 || (a.1 == b.1 && a.2 > b.2)))
}

/// The newest installer available, as its version and the place of its file: of
/// several with the same version the first.
pub fn newest_installer(files: &Vec<FoundFile>) -> (best: Option<((u64, u64, u64), usize)>)
    ensures
        match best {
            Some((version, at)) => {
                &&& at < files@.len()
                &&& can_be_offered(files@[at as int])
                &&& version_of_installer(files@[at as int].name@) == Some(version)
                &&& forall|i: int|
                    0 <= i < files@.len() && can_be_offered(#[trigger] files@[i]) ==> {
                        let other = version_of_installer(files@[i].name@)->0;
                        !newer(other, version) && (other == version ==> at <= i)
                    }
            },
            None => forall|i: int|
                0 <= i < files@.len() ==> !can_be_offered(#[trigger] files@[i]),
        },
{
    let mut best: Option<((u64, u64, u64), usize)> = None;
    let mut i: usize = 0;
    while i < files.len()
        invariant
            i <= files@.len(),
            match best {
                Some((version, at)) => {
                    &&& at < i
                    &&& can_be_offered(files@[at as int])
                    &&& version_of_installer(files@[at as int].name@) == Some(version)
                    &&& forall|j: int|
                        0 <= j < i && can_be_offered(#[trigger] files@[j]) ==> {
                            let other = version_of_installer(files@[j].name@)->0;
                            !newer(other, version) && (other == version ==> at <= j)
                        }
                },
                None => forall|j: int| 0 <= j < i ==> !can_be_offered(#[trigger] files@[j]),
            },
        decreases files@.len() - i,
    {
        let file = &files[i];
        if file.signed {
            if let Some(version) = installer_version(&file.name) {
                let better = match best {
                    Some((held, _)) => is_newer(version, held),
                    None => true,
                };
                if better {
                    best = Some((version, i));
                }
            }
        }
        i = i + 1;
    }
    best
}

/// Where the updates lie, if that was said.
pub fn update_dir(configured: Option<&str>) -> (dir: Option<String>)
    ensures
        match dir {
            Some(d) => configured is Some && d@ == trimmed(configured->0@) && d@.len() > 0,
            None => configured is None || trimmed(configured->0@).len() == 0,
        },
{
    match configured {
        Some(text) => {
            let dir = trim(text);
            if dir.as_str().is_empty() {
                None
            } else {
                Some(dir)
            }
        },
        None => None,
    }
}

/// Where clients fetch the installer from: what the deployment says, or else
/// what the request came in by.
pub open spec fn base_url(
    configured: Option<Seq<char>>,
    host: Option<Seq<char>>,
    proto: Option<Seq<char>>,
) -> Seq<char> {
    let said = match configured {
        Some(base) => without_trailing(trimmed(base), '/'),
        None => Seq::empty(),
    };
    if said.len() > 0 {
        said
    } else {
        let host = match host {
            Some(host) => host,
            None => "127.0.0.1:8080"@,
        };
        let scheme = match proto {
            Some(proto) => proto,
            None => if has_prefix(host, "127.0.0.1"@) || has_prefix(host, "localhost"@) {
                "http"@
            } else {
                "https"@
            },
        };
        scheme + "://"@ + host
    }
}

/// Where clients should fetch the installer from. Built from the request so the
/// deployment needs no extra configuration, unless it says otherwise.
pub fn public_base(configured: Option<&str>, host: Option<&str>, proto: Option<&str>) -> (base:
    String)
    ensures
        base@ == base_url(text_at(configured), text_at(host), text_at(proto)),
{
    if let Some(base) = configured {
        let said = trim_trailing(&trim(base), '/');
        if !said.as_str().is_empty() {
            return said;
        }
    }
    let host = match host {
        Some(host) => host,
        None => "127.0.0.1:8080",
    };
    let scheme = match proto {
        Some(proto) => proto,
        None => if starts_with(host, "127.0.0.1") || starts_with(host, "localhost") {
            "http"
        } else {
            "https"
        },
    };
    join3(scheme, "://", host)
}

/// How a version is written.
pub open spec fn version_text(version: (u64, u64, u64)) -> Seq<char> {
    decimal(version.0 as nat) + "."@ + decimal(version.1 as nat) + "."@ + decimal(
        version.2 as nat,
    )
}

/// Where an installer can be downloaded.
pub open spec fn download_url(base: Seq<char>, file: Seq<char>) -> Seq<char> {
    base + "/v1/update/download/"@ + file
}

/// What the client is told of a newer build.
pub struct Manifest {
    pub version: String,
    pub notes: String,
    pub url: String,
    pub signature: String,
}

/// Writes what the client is told of a newer build.
pub fn manifest(
    version: (u64, u64, u64),
    file: &str,
    base: &str,
    signature: &str,
    notes: Option<&str>,
) -> (told: Manifest)
    ensures
        told.version@ == version_text(version),
        version_in(told.version@) == Some(version),
        told.url@ == download_url(base@, file@),
        told.url@ == base@ + "/v1/update/download/"@ + file@,
        told.signature@ == trimmed(signature@),
        told.notes@ == match notes {
            Some(notes) => trimmed(notes@),
            None => Seq::empty(),
        },
{
    let minor = join3(".", &write_decimal(version.1), ".");
    let text = join3(&write_decimal(version.0), &minor, &write_decimal(version.2));
    proof {
        assert(text@ =~= version_text(version));
        a_version_reads_back(version);
    }
    let notes = match notes {
        Some(notes) => trim(notes),
        None => String::new(),
    };
    Manifest {
        version: text,
        notes,
        url: join3(base, "/v1/update/download/", file),
        signature: trim(signature),
    }
}

/// Whether there is anything to offer a client, and which file: nothing where
/// the client is current. The folder is only looked at where one was configured.
pub fn offered(configured: bool, current: &str, files: &Vec<FoundFile>) -> (offer: Result<
    Option<((u64, u64, u64), usize)>,
    ApiError,
>)
    ensures
        !configured ==> offer == Ok::<Option<((u64, u64, u64), usize)>, ApiError>(None),
        configured && version_in(without_leading(current@, 'v')) is None ==> offer == Err::<
            Option<((u64, u64, u64), usize)>,
            ApiError,
        >(ApiError::InvalidVersion),
        configured && version_in(without_leading(current@, 'v')) is Some ==> {
            let held = version_in(without_leading(current@, 'v'))->0;
            &&& offer is Ok
            &&& match offer->Ok_0 {
                Some((version, at)) => {
                    &&& newer(version, held)
                    &&& at < files@.len()
                    &&& can_be_offered(files@[at as int])
                    &&& version_of_installer(files@[at as int].name@) == Some(version)
                    &&& forall|i: int|
                        0 <= i < files@.len() && can_be_offered(#[trigger] files@[i]) ==> !newer(
                            version_of_installer(files@[i].name@)->0,
                            version,
                        )
                },
                None => forall|i: int|
                    0 <= i < files@.len() && can_be_offered(#[trigger] files@[i]) ==> !newer(
                        version_of_installer(files@[i].name@)->0,
                        held,
                    ),
            }
        },
{
    if !configured {
        return Ok(None);
    }
    let held = match parse_version(&trim_leading(current, 'v')) {
        Some(held) => held,
        None => {
            return Err(ApiError::InvalidVersion);
        },
    };
    match newest_installer(files) {
        Some((version, at)) => {
            if is_newer(version, held) {
                Ok(Some((version, at)))
            } else {
                Ok(None)
            }
        },
        None => Ok(None),
    }
}

/// The installer that a requested file belongs to: itself, or what it signs.
pub open spec fn behind_signature(file: Seq<char>) -> Seq<char> {
    if has_suffix(file, ".sig"@) {
        file.take(file.len() - ".sig"@.len())
    } else {
        file
    }
}

/// Whether a file may be downloaded: only a name this relay itself would have
/// offered, so the path cannot escape the folder.
pub fn may_download(file: &str) -> (yes: bool)
    ensures
        yes == (version_of_installer(behind_signature(file@)) is Some),
{
    match strip_suffix(file, ".sig") {
        Some(installer) => installer_version(&installer).is_some(),
        None => installer_version(file).is_some(),
    }
}

proof fn lemma_pieces_hold_the_text(text: Seq<char>, at: char, i: int)
    requires
        0 <= i < text.len(),
        text[i] != at,
    ensures
        exists|j: int|
            0 <= j < split_at_char(text, at).len() && (#[trigger] split_at_char(
                text,
                at,
            )[j]).contains(text[i]),
    decreases text.len(),
{
    let front = split_at_char(text.drop_last(), at);
    let pieces = split_at_char(text, at);
    lemma_split_has_a_piece(text.drop_last(), at);
    if i == text.len() - 1 {
        let last = pieces[front.len() - 1];
        assert(last == front.last().push(text.last()));
        assert(last[last.len() - 1] == text[i]);
        assert(last.contains(text[i]));
    } else {
        lemma_pieces_hold_the_text(text.drop_last(), at, i);
        let j = choose|j: int|
            0 <= j < front.len() && (#[trigger] front[j]).contains(text.drop_last()[i]);
        assert(front[j].contains(text[i]));
        if text.last() == at {
            assert(pieces[j] == front[j]);
        } else if j < front.len() - 1 {
            assert(pieces[j] == front[j]);
        } else {
            let k = choose|k: int| 0 <= k < front[j].len() && front[j][k] == text[i];
            assert(pieces[j] == front.last().push(text.last()));
            assert(pieces[j][k] == text[i]);
        }
        assert(pieces[j].contains(text[i]));
    }
}

/// A file name that counts as an installer, or as the signature of one, has no
/// character that could lead out of the folder.
pub proof fn an_installer_stays_in_its_folder(file: Seq<char>)
    requires
        version_of_installer(behind_signature(file)) is Some,
    ensures
        !file.contains('/'),
        !file.contains('\\'),
        !file.contains(':'),
        !file.contains('\0'),
{
    let name = behind_signature(file);
    let front = "Hush_"@;
    let back = "_x64-setup.exe"@;
    let version = between(name, front, back)->0;
    let parts = split_at_char(version, '.');
    reveal_strlit("Hush_");
    reveal_strlit("_x64-setup.exe");
    reveal_strlit(".sig");
    assert forall|i: int| 0 <= i < version.len() implies is_digit(#[trigger] version[i])
        || version[i] == '+' || version[i] == '.' by {
        if version[i] != '.' {
            lemma_pieces_hold_the_text(version, '.', i);
            let j = choose|j: int|
                0 <= j < parts.len() && (#[trigger] parts[j]).contains(version[i]);
            assert(j == 0 || j == 1 || j == 2);
            let part = parts[j];
            assert(number_in(part) is Some);
            let k = choose|k: int| 0 <= k < part.len() && part[k] == version[i];
            if part[0] == '+' {
                if k > 0 {
                    assert(part.drop_first()[k - 1] == version[i]);
                }
            }
        }
    }
    assert(name =~= front + version + back) by {
        assert(name.skip(front.len() as int).len() == version.len() + back.len());
        assert(name.take(front.len() as int) =~= front);
        let rest = name.skip(front.len() as int);
        assert(rest.skip(rest.len() - back.len()) =~= back);
        assert forall|i: int| 0 <= i < name.len() implies name[i] == (front + version
            + back)[i] by {
            if i < front.len() {
                assert(name.take(front.len() as int)[i] == front[i]);
            } else if i < front.len() + version.len() {
                assert(version[i - front.len()] == name[i]);
            } else {
                assert(rest.skip(rest.len() - back.len())[i - front.len() - version.len()]
                    == name[i]);
            }
        }
    }
    assert forall|i: int| 0 <= i < file.len() implies file[i] != '/' && file[i] != '\\' && file[i]
        != ':' && #[trigger] file[i] != '\0' by {
        if i < name.len() {
            assert(file[i] == name[i]);
            if i < front.len() {
                assert(name[i] == front[i]);
            } else if i < front.len() + version.len() {
                assert(name[i] == version[i - front.len()]);
            } else {
                assert(name[i] == back[i - front.len() - version.len()]);
            }
        } else {
            let tail = file.skip(file.len() - ".sig"@.len());
            assert(tail == ".sig"@);
            assert(file[i] == tail[i - name.len()]);
        }
    }
}

/// Versions are in a strict and total order: of two that differ exactly one is
/// later, and what is later than a later one is later.
pub proof fn versions_are_in_order(a: (u64, u64, u64), b: (u64, u64, u64), c: (u64, u64, u64))
    ensures
        !newer(a, a),
        a != b ==> newer(a, b) != newer(b, a),
        newer(a, b) && newer(b, c) ==> newer(a, c),
{
}

/// Whichever number is raised first decides: a raised patch makes a later version,
/// a raised minor number a later one whatever the patch, and a raised major number
/// a later one whatever else.
pub proof fn the_first_number_that_differs_decides(
    a: u64,
    b: u64,
    c: u64,
    minor: u64,
    patch: u64,
)
    ensures
        c < u64::MAX ==> newer((a, b, (c + 1) as u64), (a, b, c)),
        b < u64::MAX ==> newer((a, (b + 1) as u64, c), (a, b, patch)),
        a < u64::MAX ==> newer(((a + 1) as u64, b, c), (a, minor, patch)),
        newer((a, b, c), (a, b, patch)) == (c > patch),
        b != minor ==> newer((a, b, c), (a, minor, patch)) == (b > minor),
{
}

proof fn lemma_decimal_is_digits(n: nat)
    ensures
        all_digits(decimal(n)),
        !decimal(n).contains('.'),
        decimal(n).len() > 0,
    decreases n,
{
    if n >= 10 {
        lemma_decimal_is_digits(n / 10);
    }
    assert(is_digit(crate::text::digit(n % 10)));
    assert forall|i: int| 0 <= i < decimal(n).len() implies is_digit(#[trigger] decimal(n)[i]) by {
        if n >= 10 && i < decimal(n / 10).len() {
            assert(decimal(n)[i] == decimal(n / 10)[i]);
        }
    }
}

/// A version reads back as it is written, and so does that of an installer which
/// is named after it.
pub proof fn a_version_reads_back(version: (u64, u64, u64))
    ensures
        version_in(version_text(version)) == Some(version),
        version_of_installer("Hush_"@ + version_text(version) + "_x64-setup.exe"@) == Some(version),
{
    let (a, b, c) = version;
    let (x, y, z) = (decimal(a as nat), decimal(b as nat), decimal(c as nat));
    let text = version_text(version);
    lemma_decimal_is_digits(a as nat);
    lemma_decimal_is_digits(b as nat);
    lemma_decimal_is_digits(c as nat);
    crate::text::written_numbers_read_back(a as int);
    crate::text::written_numbers_read_back(b as int);
    crate::text::written_numbers_read_back(c as int);
    reveal_strlit(".");
    let front = x.push('.') + y;
    assert(text =~= front.push('.') + z);
    crate::text::the_last_piece_stands_behind_the_last_cut(front, '.', z);
    crate::text::the_last_piece_stands_behind_the_last_cut(x, '.', y);
    crate::text::the_last_piece_stands_behind_the_last_cut(Seq::empty(), '.', x);
    assert(split_at_char(text, '.') =~= seq![x, y, z]);
    let name = "Hush_"@ + text + "_x64-setup.exe"@;
    let (head, tail) = ("Hush_"@, "_x64-setup.exe"@);
    assert(name.take(head.len() as int) =~= head);
    let rest = name.skip(head.len() as int);
    assert(rest =~= text + tail);
    assert(rest.skip(rest.len() - tail.len()) =~= tail);
    assert(name.subrange(head.len() as int, name.len() - tail.len()) =~= text);
}

/// An installer can be downloaded, and so can its signature.
pub proof fn an_installer_and_its_signature_can_be_had(version: (u64, u64, u64))
    ensures
        ({
            let name = "Hush_"@ + version_text(version) + "_x64-setup.exe"@;
            &&& version_of_installer(behind_signature(name)) == Some(version)
            &&& version_of_installer(behind_signature(name + ".sig"@)) == Some(version)
        }),
{
    let name = "Hush_"@ + version_text(version) + "_x64-setup.exe"@;
    a_version_reads_back(version);
    reveal_strlit("_x64-setup.exe");
    reveal_strlit(".sig");
    let signed = name + ".sig"@;
    assert(signed.skip(signed.len() - 4) =~= ".sig"@);
    assert(signed.take(signed.len() - 4) =~= name);
    assert(!has_suffix(name, ".sig"@)) by {
        if has_suffix(name, ".sig"@) {
            assert(name.skip(name.len() - 4)[1] == 's');
            assert(name[name.len() - 3] == "_x64-setup.exe"@[11]);
        }
    }
}

/// A file counts as an installer only where it is named like one: what stands
/// between the two ends of its name is its version.
pub proof fn only_an_installer_is_offered(file: FoundFile)
    requires
        can_be_offered(file),
    ensures
        file.signed,
        has_prefix(file.name@, "Hush_"@),
        has_suffix(file.name@, "_x64-setup.exe"@),
        version_in(
            file.name@.subrange("Hush_"@.len() as int, file.name@.len() - "_x64-setup.exe"@.len()),
        ) == version_of_installer(file.name@),
{
    let rest = file.name@.skip("Hush_"@.len() as int);
    let n = "_x64-setup.exe"@.len();
    assert(file.name@.skip(file.name@.len() - n) =~= rest.skip(rest.len() - n));
}

/// Where the deployment says its address, that is the address, without the slashes
/// and the space around it; otherwise it is made from the request, and only a
/// request to this machine itself goes unencrypted.
pub proof fn the_address_is_the_one_that_was_said(
    base: Seq<char>,
    slashes: Seq<char>,
    host: Seq<char>,
    proto: Seq<char>,
    asked: Option<Seq<char>>,
    by: Option<Seq<char>>,
)
    requires
        base.len() > 0,
        base.last() != '/',
        !crate::text::whitespace(base[0]),
        !crate::text::whitespace(base.last()),
        forall|i: int| 0 <= i < slashes.len() ==> (#[trigger] slashes[i]) == '/',
    ensures
        base_url(Some(base + slashes), asked, by) == base,
        base_url(None, Some(host), Some(proto)) == proto + "://"@ + host,
        has_prefix(host, "localhost"@) || has_prefix(host, "127.0.0.1"@) ==> base_url(
            None,
            Some(host),
            None,
        ) == "http://"@ + host,
        !has_prefix(host, "localhost"@) && !has_prefix(host, "127.0.0.1"@) ==> base_url(
            None,
            Some(host),
            None,
        ) == "https://"@ + host,
        base_url(None, None, None) == "http://127.0.0.1:8080"@,
        base_url(Some(Seq::empty()), asked, by) == base_url(None, asked, by),
{
    let whole = base + slashes;
    assert(!crate::text::whitespace(whole.last())) by {
        if slashes.len() > 0 {
            assert(whole.last() == slashes[slashes.len() - 1]);
        }
    }
    assert(whole =~= Seq::<char>::empty() + whole + Seq::<char>::empty());
    crate::text::trimming_takes_the_space_at_the_ends(Seq::empty(), whole, Seq::empty());
    crate::text::every_trailing_one_goes(base, slashes, '/');
    reveal_strlit("http");
    reveal_strlit("https");
    reveal_strlit("://");
    reveal_strlit("http://");
    reveal_strlit("https://");
    reveal_strlit("http://127.0.0.1:8080");
    reveal_strlit("127.0.0.1:8080");
    reveal_strlit("127.0.0.1");
    assert("http"@ + "://"@ =~= "http://"@);
    assert("https"@ + "://"@ =~= "https://"@);
    assert("127.0.0.1:8080"@.take(9) =~= "127.0.0.1"@);
    assert("http"@ + "://"@ + "127.0.0.1:8080"@ =~= "http://127.0.0.1:8080"@);
}

/// A version is three numbers between two dots, and nothing else is one.
pub proof fn a_version_is_three_numbers(text: Seq<char>)
    ensures
        version_in(text) is Some <==> {
            let parts = split_at_char(text, '.');
            &&& parts.len() == 3
            &&& forall|i: int|
                0 <= i < 3 ==> number_in(#[trigger] parts[i]) is Some && number_in(parts[i])->0
                    <= u64::MAX
        },
        version_in(text) is Some ==> {
            let parts = split_at_char(text, '.');
            let (a, b, c) = version_in(text)->0;
            a == number_in(parts[0])->0 && b == number_in(parts[1])->0 && c == number_in(
                parts[2],
            )->0
        },
{
    let parts = split_at_char(text, '.');
    if parts.len() == 3 {
        if version_in(text) is Some {
            assert forall|i: int| 0 <= i < 3 implies number_in(#[trigger] parts[i]) is Some
                && number_in(parts[i])->0 <= u64::MAX by {
                assert(i == 0 || i == 1 || i == 2);
            }
        }
        if forall|i: int|
            0 <= i < 3 ==> number_in(#[trigger] parts[i]) is Some && number_in(parts[i])->0
                <= u64::MAX {
            assert(number_in(parts[0]) is Some && number_in(parts[1]) is Some && number_in(
                parts[2],
            ) is Some);
        }
    }
}

} // verus!
