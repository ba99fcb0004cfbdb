use vstd::prelude::*;

use crate::entities::PackageRow;
use crate::kind::DocumentationFormat;
use crate::text::chars_of;

verus! {

/// The part of a package record that names it.
#[derive(Debug, Clone)]
pub struct BasePackage {
    pub name: String,
}

/// A package's license: a bare name, or a record with its SPDX id.
#[derive(Debug, Clone)]
pub enum License {
    String(String),
    Struct { free: bool, full_name: String, spd_id: String },
}

/// The metadata of a package record.
#[derive(Debug, Clone)]
pub struct Meta {
    pub description: String,
    pub long_description: String,
    pub main_program: String,
    pub homepage: Vec<String>,
    pub license: Vec<License>,
    pub broken: bool,
    pub unfree: bool,
    pub name: String,
    pub position: String,
    pub platforms: Vec<String>,
}

/// The name under which a license is stored: the bare name, or the SPDX id.
pub open spec fn license_name(l: License) -> Seq<char> {
    match l {
        License::String(s) => s@,
        License::Struct { spd_id, .. } => spd_id@,
    }
}

/// The link to a package's source for a position `file:line`: the file in the
/// nixpkgs repository, anchored at the line, or at line 1 where none is given.
pub open spec fn source_url_of(position: Seq<char>) -> Seq<char> {
    let c = first_colon(position);
    let file = position.subrange(0, c);
    let line = if c < position.len() {
        position.subrange(c + 1, position.len() as int)
    } else {
        "1"@
    };
    "https://github.com/NixOS/nixpkgs/blob/master/"@ + file + "#L"@ + line
}

/// The index of the first `:` in `s`, or its length where it holds none.
pub open spec fn first_colon(s: Seq<char>) -> int {
    if exists|i: int| 0 <= i < s.len() && s[i] == ':' {
        choose|i: int| 0 <= i < s.len() && s[i] == ':' && forall|j: int| 0 <= j < i ==> s[j] != ':'
    } else {
        s.len() as int
    }
}

/// The link to a package's source for a position `file:line`.
pub fn source_code_url(position: &str) -> (r: String)
    ensures
        r@ == source_url_of(position@),
{
    let cs = chars_of(position);
    let n = cs.len();
    let mut c: usize = 0;
    while c < n && cs[c] != ':'
        invariant
            cs@ == position@,
            n == cs@.len(),
            0 <= c <= n,
            forall|j: int| 0 <= j < c ==> cs@[j] != ':',
        decreases n - c,
    {
        c = c + 1;
    }
    proof {
        if c < n {
            assert(position@[c as int] == ':');
            assert(first_colon(position@) == c) by {
                let k = first_colon(position@);
                assert(0 <= k < n && position@[k] == ':' && forall|j: int|
                    0 <= j < k ==> position@[j] != ':');
                if k < c {
                    assert(cs@[k] != ':');
                }
                if k > c {
                    assert(position@[c as int] != ':');
                }
            }
        } else {
            assert(!exists|i: int| 0 <= i < position@.len() && position@[i] == ':');
        }
    }
    let mut r = "https://github.com/NixOS/nixpkgs/blob/master/".to_owned();
    r.append(position.substring_char(0, c));
    r.append("#L");
    if c < n {
        r.append(position.substring_char(c + 1, n));
    } else {
        r.append("1");
    }
    r
}

/// The first element of a list, if any.
fn first_string(v: &Vec<String>) -> (r: Option<String>)
    ensures
        v@.len() == 0 <==> r is None,
        r is Some ==> r->0@ == v@[0]@,
{
    if v.len() == 0 {
        None
    } else {
        Some(v[0].clone())
    }
}

/// The stored license of a package: the first license's name or SPDX id, if any.
pub fn first_license(ls: &Vec<License>) -> (r: Option<String>)
    ensures
        ls@.len() == 0 <==> r is None,
        r is Some ==> r->0@ == license_name(ls@[0]),
{
    if ls.len() == 0 {
        return None;
    }
    match &ls[0] {
        License::String(s) => Some(s.clone()),
        License::Struct { spd_id, .. } => Some(spd_id.clone()),
    }
}

/// The row stored for a package record: plain-text `data`, the first homepage and
/// license, a source link where the record gives a position, and the description
/// where it is not empty.
pub fn package_row(
    provider_name: &str,
    name: &str,
    version: &str,
    meta: &Meta,
    data: String,
) -> (r: PackageRow)
    ensures
        r.provider_name@ == provider_name@,
        r.name@ == name@,
        r.version is Some && r.version->0@ == version@,
        r.format == DocumentationFormat::PlainText,
        r.data == data,
        (r.description is Some) == (meta.description@.len() > 0),
        r.description is Some ==> r.description->0@ == meta.description@,
        (r.homepage is Some) == (meta.homepage@.len() > 0),
        r.homepage is Some ==> r.homepage->0@ == meta.homepage@[0]@,
        (r.license is Some) == (meta.license@.len() > 0),
        r.license is Some ==> r.license->0@ == license_name(meta.license@[0]),
        (r.source_code_url is Some) == (meta.position@.len() > 0),
        r.source_code_url is Some ==> r.source_code_url->0@ == source_url_of(meta.position@),
        r.broken == meta.broken,
        r.unfree == meta.unfree,
{
    let description = if meta.description.unicode_len() > 0 {
        Some(meta.description.clone())
    } else {
        None
    };
    let source_code_url = if meta.position.unicode_len() > 0 {
        Some(source_code_url(meta.position.as_str()))
    } else {
        None
    };
    PackageRow {
        provider_name: provider_name.to_owned(),
        name: name.to_owned(),
        version: Some(version.to_owned()),
        format: DocumentationFormat::PlainText,
        data,
        description,
        homepage: first_string(&meta.homepage),
        license: first_license(&meta.license),
        source_code_url,
        broken: meta.broken,
        unfree: meta.unfree,
    }
}

} // verus!
