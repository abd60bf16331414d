use vstd::prelude::*;
use vstd::string::StringExecFns;

verus! {

/// The operating system that the viewer runs on.
#[derive(Clone, Copy, PartialEq, Eq, Structural, Debug)]
pub enum Os {
    Linux,
    Macos,
    Other,
}

/// The processor that the viewer runs on.
#[derive(Clone, Copy, PartialEq, Eq, Structural, Debug)]
pub enum Arch {
    X86_64,
    Aarch64,
    Other,
}

/// Why no release can be named for a machine.
#[derive(Clone, Copy, PartialEq, Eq, Structural, Debug)]
pub enum UpdateError {
    UnsupportedOs,
    UnsupportedArch,
}

/// The name of an operating system in the names of releases.
pub open spec fn os_name(os: Os) -> Seq<char> {
    match os {
        Os::Linux => "linux"@,
        Os::Macos => "macos"@,
        Os::Other => Seq::empty(),
    }
}

/// The name of a processor in the names of releases.
pub open spec fn arch_name(arch: Arch) -> Seq<char> {
    match arch {
        Arch::X86_64 => "x86_64"@,
        Arch::Aarch64 => "aarch64"@,
        Arch::Other => Seq::empty(),
    }
}

/// Names the release for a machine: the program's name, the operating
/// system and the processor, joined by hyphens. There are releases for two
/// operating systems and two processors; the operating system is looked at
/// first.
pub fn platform_name(os: Os, arch: Arch) -> (r: Result<String, UpdateError>)
    ensures
        match r {
            Ok(name) => os != Os::Other && arch != Arch::Other && name@ == "tpdf-"@ + os_name(os)
                + "-"@ + arch_name(arch),
            Err(UpdateError::UnsupportedOs) => os == Os::Other,
            Err(UpdateError::UnsupportedArch) => os != Os::Other && arch == Arch::Other,
        },
{
    let os_part: &str = match os {
        Os::Linux => "linux",
        Os::Macos => "macos",
        Os::Other => {
            return Err(UpdateError::UnsupportedOs);
        },
    };
    let arch_part: &str = match arch {
        Arch::X86_64 => "x86_64",
        Arch::Aarch64 => "aarch64",
        Arch::Other => {
            return Err(UpdateError::UnsupportedArch);
        },
    };
    let name = String::from_str("tpdf-").concat(os_part).concat("-").concat(arch_part);
    Ok(name)
}

/// The bytes of the key that precedes a release's tag in the description
/// of the release: the word `tag_name` between double quotes.
pub open spec fn tag_key() -> Seq<u8> {
    seq![34u8, 116u8, 97u8, 103u8, 95u8, 110u8, 97u8, 109u8, 101u8, 34u8]
}

/// The byte of a double quote.
pub const QUOTE: u8 = 34;

/// The byte of the letter that may precede the version in a tag.
pub const VERSION_PREFIX: u8 = 118;

/// Whether `pat` stands in `s` at `at`.
pub open spec fn occurs_at(s: Seq<u8>, pat: Seq<u8>, at: int) -> bool {
    0 <= at && at + pat.len() <= s.len() && s.subrange(at, at + pat.len()) == pat
}

/// The first place from `from` on at which `pat` stands in `s` and ends no
/// later than `to`.
pub open spec fn first_in(s: Seq<u8>, pat: Seq<u8>, from: int, to: int) -> Option<int>
    decreases to - from + 1,
{
    if from < 0 || to > s.len() || from + pat.len() > to {
        None
    } else if occurs_at(s, pat, from) {
        Some(from)
    } else {
        first_in(s, pat, from + 1, to)
    }
}

/// Where the tag stands in the description of a release, as the place of
/// its first byte and the place after its last. The text after the first
/// key, up to the next key if there is one, is looked at: the tag starts
/// after the first double quote in it and ends before the second, or where
/// that text ends. Without a key, or without a double quote after it,
/// there is no tag.
pub open spec fn tag_span(body: Seq<u8>) -> Option<(int, int)> {
    match first_in(body, tag_key(), 0, body.len() as int) {
        None => None,
        Some(key) => {
            let start = key + tag_key().len();
            let end = match first_in(body, tag_key(), start, body.len() as int) {
                Some(next) => next,
                None => body.len() as int,
            };
            match first_in(body, seq![QUOTE], start, end) {
                None => None,
                Some(open) => match first_in(body, seq![QUOTE], open + 1, end) {
                    Some(close) => Some((open + 1, close)),
                    None => Some((open + 1, end)),
                },
            }
        },
    }
}

/// The tag in the description of a release.
pub open spec fn tag_of(body: Seq<u8>) -> Option<Seq<u8>> {
    match tag_span(body) {
        Some((from, to)) => Some(body.subrange(from, to)),
        None => None,
    }
}

/// What `first_in` finds is the first place in its range at which the
/// pattern stands, and it finds one whenever there is one.
pub proof fn lemma_first_in(s: Seq<u8>, pat: Seq<u8>, from: int, to: int)
    requires
        0 <= from,
        to <= s.len(),
    ensures
        match first_in(s, pat, from, to) {
            Some(at) => from <= at && at + pat.len() <= to && occurs_at(s, pat, at) && forall|
                j: int,
            |
                from <= j < at ==> !occurs_at(s, pat, j),
            None => forall|j: int| from <= j && j + pat.len() <= to ==> !occurs_at(s, pat, j),
        },
    decreases to - from + 1,
{
    if from + pat.len() <= to && !occurs_at(s, pat, from) {
        lemma_first_in(s, pat, from + 1, to);
    }
}

/// Whether `pat` stands in `s` at `at`.
fn matches_at(s: &Vec<u8>, pat: &Vec<u8>, at: usize) -> (r: bool)
    requires
        at + pat@.len() <= s@.len(),
    ensures
        r == occurs_at(s@, pat@, at as int),
{
    let total: usize = s.len();
    let mut k: usize = 0;
    while k < pat.len()
        invariant
            0 <= k <= pat@.len(),
            total == s@.len(),
            at + pat@.len() <= s@.len(),
            forall|j: int| 0 <= j < k ==> s@[at + j] == pat@[j],
        decreases pat@.len() - k,
    {
        if s[at + k] != pat[k] {
            assert(s@.subrange(at as int, at + pat@.len())[k as int] != pat@[k as int]);
            return false;
        }
        k = k + 1;
    }
    assert(s@.subrange(at as int, at + pat@.len()) =~= pat@);
    true
}

/// Finds the first place from `from` on at which `pat` stands in `s` and
/// ends no later than `to`.
pub fn find_in(s: &Vec<u8>, pat: &Vec<u8>, from: usize, to: usize) -> (r: Option<usize>)
    ensures
        match r {
            Some(at) => first_in(s@, pat@, from as int, to as int) == Some(at as int),
            None => first_in(s@, pat@, from as int, to as int) is None,
        },
{
    if to > s.len() || pat.len() > to || from > to - pat.len() {
        return None;
    }
    let last: usize = to - pat.len();
    let mut at: usize = from;
    loop
        invariant
            from <= at <= last,
            last == to - pat@.len(),
            to <= s@.len(),
            first_in(s@, pat@, from as int, to as int) == first_in(s@, pat@, at as int, to as int),
        decreases last - at,
    {
        if matches_at(s, pat, at) {
            return Some(at);
        }
        if at == last {
            return None;
        }
        at = at + 1;
    }
}

/// Reads the tag of the release out of the description of the release.
pub fn extract_tag(body: &Vec<u8>) -> (r: Option<Vec<u8>>)
    ensures
        match r {
            Some(tag) => tag_of(body@) == Some(tag@),
            None => tag_of(body@) is None,
        },
{
    let mut key: Vec<u8> = Vec::new();
    key.push(34);
    key.push(116);
    key.push(97);
    key.push(103);
    key.push(95);
    key.push(110);
    key.push(97);
    key.push(109);
    key.push(101);
    key.push(34);
    assert(key@ =~= tag_key());
    let mut quote: Vec<u8> = Vec::new();
    quote.push(QUOTE);
    assert(quote@ =~= seq![QUOTE]);
    let len: usize = body.len();
    match find_in(body, &key, 0, len) {
        None => None,
        Some(at) => {
            proof {
                lemma_first_in(body@, key@, 0, len as int);
            }
            let start: usize = at + key.len();
            let end: usize = match find_in(body, &key, start, len) {
                Some(next) => next,
                None => len,
            };
            match find_in(body, &quote, start, end) {
                None => None,
                Some(open) => {
                    proof {
                        lemma_first_in(body@, key@, start as int, len as int);
                        lemma_first_in(body@, quote@, start as int, end as int);
                    }
                    let close: usize = match find_in(body, &quote, open + 1, end) {
                        Some(c) => c,
                        None => end,
                    };
                    proof {
                        lemma_first_in(body@, quote@, open + 1, end as int);
                    }
                    let mut tag: Vec<u8> = Vec::new();
                    let mut i: usize = open + 1;
                    while i < close
                        invariant
                            open + 1 <= i <= close || (i == open + 1 && close <= open),
                            close <= body@.len(),
                            i <= close ==> tag@ == body@.subrange(open + 1, i as int),
                            i > close ==> tag@ == Seq::<u8>::empty(),
                        decreases close - i,
                    {
                        tag.push(body[i]);
                        assert(tag@ =~= body@.subrange(open + 1, i + 1));
                        i = i + 1;
                    }
                    assert(tag@ =~= body@.subrange(open + 1, close as int));
                    Some(tag)
                },
            }
        },
    }
}

/// The version that a tag names: the tag without the letter that may
/// precede the version.
pub open spec fn version_of(tag: Seq<u8>) -> Seq<u8> {
    if tag.len() > 0 && tag[0] == VERSION_PREFIX {
        tag.subrange(1, tag.len() as int)
    } else {
        tag
    }
}

/// Tells whether a release's tag names the version `current`.
pub fn is_current(tag: &Vec<u8>, current: &Vec<u8>) -> (r: bool)
    ensures
        r == (version_of(tag@) == current@),
{
    let skip: usize = if tag.len() > 0 && tag[0] == VERSION_PREFIX {
        1
    } else {
        0
    };
    assert(version_of(tag@) =~= tag@.subrange(skip as int, tag@.len() as int));
    if tag.len() - skip != current.len() {
        return false;
    }
    let mut i: usize = 0;
    while i < current.len()
        invariant
            0 <= i <= current@.len(),
            skip <= 1,
            tag@.len() - skip == current@.len(),
            version_of(tag@) == tag@.subrange(skip as int, tag@.len() as int),
            forall|j: int| 0 <= j < i ==> tag@[skip + j] == current@[j],
        decreases current@.len() - i,
    {
        if tag[skip + i] != current[i] {
            assert(version_of(tag@)[i as int] != current@[i as int]);
            return false;
        }
        i = i + 1;
    }
    assert(version_of(tag@) =~= current@);
    true
}

} // verus!
