use vstd::prelude::*;

use vstd::string::StrSliceExecFns;

use crate::error::Error;
use crate::job::{Size, VariantKey};
use crate::media::{format_named, Format};
use crate::storage::{parse_uuid, uuid_value};

verus! {

/// Query parameters of a file download.
pub struct LoadFileParams {
    pub format: Option<String>,
    pub width: Option<u32>,
    pub height: Option<u32>,
}

/// What a download names: the original upload, or one derived variant.
#[derive(Debug, Clone, Copy, PartialEq, Eq, Structural)]
pub enum FileTarget {
    Original { file_id: u128, format: Format },
    Variant(VariantKey),
}

/// The text before and after the first dot, or nothing when there is none.
fn split_at_dot(s: &str) -> (r: Option<(&str, &str)>)
    ensures
        r matches Some(p) ==> s@ == p.0@ + seq!['.'] + p.1@ && !p.0@.contains('.'),
        r is None ==> !s@.contains('.'),
{
    let n = s.unicode_len();
    let mut i: usize = 0;
    while i < n
        invariant
            n == s@.len(),
            i <= n,
            forall|k: int| 0 <= k < i ==> s@[k] != '.',
        decreases n - i,
    {
        if s.get_char(i) == '.' {
            let a = s.substring_char(0, i);
            let b = s.substring_char(i + 1, n);
            assert(s@ =~= a@ + seq!['.'] + b@);
            assert(!a@.contains('.')) by {
                if a@.contains('.') {
                    let k = choose|k: int| 0 <= k < a@.len() && a@[k] == '.';
                    assert(s@[k] == '.');
                }
            }
            return Some((a, b));
        }
        i = i + 1;
    }
    None
}

/// `s` holds exactly one dot, at index `i`.
pub open spec fn single_dot_at(s: Seq<char>, i: int) -> bool {
    &&& 0 <= i < s.len()
    &&& s[i] == '.'
    &&& !s.subrange(0, i).contains('.')
    &&& !s.subrange(i + 1, s.len() as int).contains('.')
}

/// The two parts of a name with exactly one dot, such as `<id>.<ext>`.
pub open spec fn name_parts(s: Seq<char>) -> Option<(Seq<char>, Seq<char>)> {
    if exists|i: int| single_dot_at(s, i) {
        let i = choose|i: int| single_dot_at(s, i);
        Some((s.subrange(0, i), s.subrange(i + 1, s.len() as int)))
    } else {
        None
    }
}

proof fn lemma_single_dot_unique(s: Seq<char>, i: int, j: int)
    requires
        single_dot_at(s, i),
        single_dot_at(s, j),
    ensures
        i == j,
{
    if i < j {
        assert(s.subrange(0, j)[i] == '.');
    } else if j < i {
        assert(s.subrange(0, i)[j] == '.');
    }
}

/// Splits a name with exactly one dot into its two parts.
pub fn split_name(s: &str) -> (r: Option<(&str, &str)>)
    ensures
        r matches Some(p) ==> name_parts(s@) == Some((p.0@, p.1@)),
        r is None ==> name_parts(s@) is None,
{
    match split_at_dot(s) {
        None => {
            assert forall|i: int| !single_dot_at(s@, i) by {
                if 0 <= i < s@.len() && s@[i] == '.' {
                    assert(s@.contains('.'));
                }
            }
            None
        },
        Some((a, b)) => {
            let ghost i = a@.len() as int;
            assert(s@.subrange(0, i) =~= a@);
            assert(s@.subrange(i + 1, s@.len() as int) =~= b@);
            assert(s@[i] == '.');
            match split_at_dot(b) {
                Some((c, d)) => {
                    assert forall|j: int| !single_dot_at(s@, j) by {
                        if single_dot_at(s@, j) {
                            if j < i {
                                assert(a@[j] == '.');
                                assert(a@.contains('.'));
                            } else if j > i {
                                assert(s@.subrange(0, j)[i] == '.');
                            } else {
                                assert(b@[c@.len() as int] == '.');
                                assert(b@.contains('.'));
                            }
                        }
                    }
                    None
                },
                None => {
                    assert(single_dot_at(s@, i));
                    proof {
                        let k = choose|k: int| single_dot_at(s@, k);
                        lemma_single_dot_unique(s@, i, k);
                    }
                    Some((a, b))
                },
            }
        },
    }
}

pub open spec fn opt_view(o: Option<String>) -> Option<Seq<char>> {
    match o {
        Some(s) => Some(s@),
        None => None,
    }
}

/// The file id named by a download: the whole name as a UUID, or else the
/// part before the only dot.
pub open spec fn file_id_of(name: Seq<char>) -> Option<u128> {
    match uuid_value(name) {
        Some(id) => Some(id),
        None => match name_parts(name) {
            Some((a, _)) => uuid_value(a),
            None => None,
        },
    }
}

/// What a download resolves to. The format comes from the query, or else from
/// the name's extension; a variant needs width, height and format in the query.
pub open spec fn resolved(
    name: Seq<char>,
    format: Option<Seq<char>>,
    width: Option<u32>,
    height: Option<u32>,
) -> Result<FileTarget, Error> {
    match file_id_of(name) {
        None => Err(Error::MissingFileId),
        Some(file_id) => {
            let text = match format {
                Some(f) => Some(f),
                None => match name_parts(name) {
                    Some((_, ext)) => Some(ext),
                    None => None,
                },
            };
            match text {
                None => Err(Error::NotFound),
                Some(t) => match format_named(t) {
                    None => Err(Error::MimeNotSupported),
                    Some(f) => match (width, height, format) {
                        (Some(w), Some(h), Some(_)) => Ok(
                            FileTarget::Variant(
                                VariantKey { file_id, size: Size { width: w, height: h }, format: f },
                            ),
                        ),
                        _ => Ok(FileTarget::Original { file_id, format: f }),
                    },
                },
            }
        },
    }
}

fn resolve_file_id(name: &str, parts: Option<(&str, &str)>) -> (r: Option<u128>)
    requires
        parts matches Some(p) ==> name_parts(name@) == Some((p.0@, p.1@)),
        parts is None ==> name_parts(name@) is None,
    ensures
        r == file_id_of(name@),
{
    match parse_uuid(name) {
        Some(id) => Some(id),
        None => match parts {
            Some((a, _)) => parse_uuid(a),
            None => None,
        },
    }
}

/// Resolves a download request `GET /files/<name>?format&width&height`.
pub fn resolve_file(name: &str, params: &LoadFileParams) -> (r: Result<FileTarget, Error>)
    ensures
        r == resolved(name@, opt_view(params.format), params.width, params.height),
{
    let parts = split_name(name);
    let file_id = match resolve_file_id(name, parts) {
        None => return Err(Error::MissingFileId),
        Some(id) => id,
    };
    let text: &str = match &params.format {
        Some(f) => f.as_str(),
        None => match parts {
            Some((_, ext)) => ext,
            None => return Err(Error::NotFound),
        },
    };
    let f = match Format::from_name(text) {
        None => return Err(Error::MimeNotSupported),
        Some(f) => f,
    };
    match (params.width, params.height, &params.format) {
        (Some(w), Some(h), Some(_)) => Ok(
            FileTarget::Variant(VariantKey { file_id, size: Size { width: w, height: h }, format: f }),
        ),
        _ => Ok(FileTarget::Original { file_id, format: f }),
    }
}

} // verus!
