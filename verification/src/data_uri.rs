//! Inline data URIs: `data:<mime type>[;base64],<data>`.
use vstd::prelude::*;
use vstd::string::StrSliceExecFns;

verus! {

/// `s` begins with `prefix`.
pub open spec fn starts_with(s: Seq<char>, prefix: Seq<char>) -> bool {
    prefix.len() <= s.len() && s.subrange(0, prefix.len() as int) == prefix
}

/// `s` ends with `suffix`.
pub open spec fn ends_with(s: Seq<char>, suffix: Seq<char>) -> bool {
    suffix.len() <= s.len() && s.subrange(s.len() - suffix.len(), s.len() as int) == suffix
}

/// Where `delimiter` first occurs in `s`, or the length of `s` if it does not occur.
pub open spec fn first_index(s: Seq<char>, delimiter: char) -> int
    decreases s.len(),
{
    if s.len() == 0 {
        0
    } else if s[0] == delimiter {
        0
    } else {
        1 + first_index(s.drop_first(), delimiter)
    }
}

/// The first occurrence is the one that nothing equal stands before.
pub proof fn lemma_first_index(s: Seq<char>, delimiter: char, at: int)
    requires
        0 <= at <= s.len(),
        forall|j: int| 0 <= j < at ==> s[j] != delimiter,
        at < s.len() ==> s[at] == delimiter,
    ensures
        first_index(s, delimiter) == at,
        s.contains(delimiter) <==> at < s.len(),
    decreases s.len(),
{
    if s.len() > 0 && at > 0 {
        lemma_first_index(s.drop_first(), delimiter, at - 1);
    }
    if s.contains(delimiter) {
        let j = choose|j: int| 0 <= j < s.len() && s[j] == delimiter;
        assert(at <= j);
    }
}

/// Splits `input` at the first `delimiter`: what stands before it and what stands
/// behind it. Nothing where `input` has no `delimiter`.
pub fn split_once(input: &str, delimiter: char) -> (r: Option<(&str, &str)>)
    ensures
        match r {
            Some((head, tail)) => {
                let at = first_index(input@, delimiter);
                &&& input@.contains(delimiter)
                &&& 0 <= at < input@.len()
                &&& head@ == input@.subrange(0, at)
                &&& tail@ == input@.subrange(at + 1, input@.len() as int)
            },
            None => !input@.contains(delimiter),
        },
{
    let len = input.unicode_len();
    let mut i: usize = 0;
    for c in it: input.chars()
        invariant
            i == it.index(),
            it.seq() == input@,
            len == input@.len(),
            forall|j: int| 0 <= j < i ==> input@[j] != delimiter,
    {
        if c == delimiter {
            proof {
                lemma_first_index(input@, delimiter, i as int);
            }
            return Some((input.substring_char(0, i), input.substring_char(i + 1, len)));
        }
        i = i + 1;
    }
    proof {
        lemma_first_index(input@, delimiter, len as int);
    }
    None
}

/// What stands behind `prefix` in `s`, where `s` begins with it.
pub fn strip_prefix<'a>(s: &'a str, prefix: &str) -> (r: Option<&'a str>)
    ensures
        match r {
            Some(rest) => starts_with(s@, prefix@) && rest@ == s@.subrange(
                prefix@.len() as int,
                s@.len() as int,
            ),
            None => !starts_with(s@, prefix@),
        },
{
    let len = s.unicode_len();
    let n = prefix.unicode_len();
    if len < n {
        return None;
    }
    let mut i: usize = 0;
    while i < n
        invariant
            i <= n <= len,
            n == prefix@.len(),
            len == s@.len(),
            forall|j: int| 0 <= j < i ==> s@[j] == prefix@[j],
        decreases n - i,
    {
        if s.get_char(i) != prefix.get_char(i) {
            assert(s@.subrange(0, n as int)[i as int] != prefix@[i as int]);
            return None;
        }
        i = i + 1;
    }
    assert(s@.subrange(0, n as int) =~= prefix@);
    Some(s.substring_char(n, len))
}

/// What stands before `suffix` in `s`, where `s` ends with it.
pub fn strip_suffix<'a>(s: &'a str, suffix: &str) -> (r: Option<&'a str>)
    ensures
        match r {
            Some(rest) => ends_with(s@, suffix@) && rest@ == s@.subrange(
                0,
                s@.len() - suffix@.len(),
            ),
            None => !ends_with(s@, suffix@),
        },
{
    let len = s.unicode_len();
    let n = suffix.unicode_len();
    if len < n {
        return None;
    }
    let start = len - n;
    let mut i: usize = 0;
    while i < n
        invariant
            i <= n <= len,
            start == len - n,
            n == suffix@.len(),
            len == s@.len(),
            forall|j: int| 0 <= j < i ==> s@[start + j] == suffix@[j],
        decreases n - i,
    {
        if s.get_char(start + i) != suffix.get_char(i) {
            assert(s@.subrange(start as int, len as int)[i as int] != suffix@[i as int]);
            return None;
        }
        i = i + 1;
    }
    assert(s@.subrange(start as int, len as int) =~= suffix@);
    Some(s.substring_char(0, start))
}

/// The scheme that a data URI begins with.
pub open spec fn scheme() -> Seq<char> {
    seq!['d', 'a', 't', 'a', ':']
}

/// The marker that ends the mime type of base64 data.
pub open spec fn base64_marker() -> Seq<char> {
    seq![';', 'b', 'a', 's', 'e', '6', '4']
}

/// A data URI taken apart.
#[derive(Clone, Copy, Debug, PartialEq, Eq)]
pub struct DataUri<'a> {
    pub mime_type: &'a str,
    pub base64: bool,
    pub data: &'a str,
}

/// A data URI taken apart, as mathematics.
pub struct DataUriParts {
    pub mime_type: Seq<char>,
    pub base64: bool,
    pub data: Seq<char>,
}

impl<'a> View for DataUri<'a> {
    type V = DataUriParts;

    open spec fn view(&self) -> DataUriParts {
        DataUriParts { mime_type: self.mime_type@, base64: self.base64, data: self.data@ }
    }
}

/// The parts of `uri`, where it is a data URI: it begins with the scheme and has a
/// comma behind it. The mime type stands before the first comma, without the base64
/// marker where it ends with one, and the data behind that comma.
pub open spec fn data_uri_parts(uri: Seq<char>) -> Option<DataUriParts> {
    let rest = uri.subrange(scheme().len() as int, uri.len() as int);
    if starts_with(uri, scheme()) && rest.contains(',') {
        let at = first_index(rest, ',');
        let head = rest.subrange(0, at);
        let data = rest.subrange(at + 1, rest.len() as int);
        if ends_with(head, base64_marker()) {
            Some(
                DataUriParts {
                    mime_type: head.subrange(0, head.len() - base64_marker().len()),
                    base64: true,
                    data,
                },
            )
        } else {
            Some(DataUriParts { mime_type: head, base64: false, data })
        }
    } else {
        None
    }
}

/// What decoding `data` as standard base64 gives, or nothing where `data` is no
/// base64.
pub uninterp spec fn base64_decoded(data: Seq<char>) -> Option<Seq<u8>>;

/// The error of `base64::decode`.
#[verifier::external_type_specification]
#[verifier::external_body]
pub struct ExDecodeError(base64::DecodeError);

/// Calls `base64::decode`, which decodes text in the standard base64 alphabet. Whether
/// it succeeds, and the bytes that it gives, depend on the text alone.
#[verifier::external_body]
fn base64_decode(data: &str) -> (r: Result<Vec<u8>, base64::DecodeError>)
    ensures
        match r {
            Ok(bytes) => base64_decoded(data@) == Some(bytes@),
            Err(_) => base64_decoded(data@) is None,
        },
{
    base64::decode(data)
}

/// What a data URI with these parts holds: the decoded data where they are base64,
/// else the bytes of the text. Nothing where the data are to be base64 and are not.
pub open spec fn data_uri_bytes(parts: DataUriParts) -> Option<Seq<u8>> {
    if parts.base64 {
        base64_decoded(parts.data)
    } else {
        Some(vstd::utf8::encode_utf8(parts.data))
    }
}

impl<'a> DataUri<'a> {
    /// Takes a data URI apart. Fails on what is no data URI.
    pub fn parse(uri: &'a str) -> (r: Result<DataUri<'a>, ()>)
        ensures
            match data_uri_parts(uri@) {
                Some(parts) => r matches Ok(found) && found@ == parts,
                None => r is Err,
            },
    {
        proof {
            reveal_strlit("data:");
            reveal_strlit(";base64");
            assert("data:"@ =~= scheme());
            assert(";base64"@ =~= base64_marker());
        }
        let uri = match strip_prefix(uri, "data:") {
            Some(rest) => rest,
            None => {
                return Err(());
            },
        };
        let (mime_type, data) = match split_once(uri, ',') {
            Some(halves) => halves,
            None => {
                return Err(());
            },
        };
        let (mime_type, base64) = match strip_suffix(mime_type, ";base64") {
            Some(mime_type) => (mime_type, true),
            None => (mime_type, false),
        };
        Ok(DataUri { mime_type, base64, data })
    }

    /// The bytes that the URI holds.
    pub fn decode(&self) -> (r: Result<Vec<u8>, base64::DecodeError>)
        ensures
            match r {
                Ok(bytes) => data_uri_bytes(self@) == Some(bytes@),
                Err(_) => data_uri_bytes(self@) is None,
            },
    {
        if self.base64 {
            base64_decode(self.data)
        } else {
            Ok(self.data.as_bytes_vec())
        }
    }
}

} // verus!
