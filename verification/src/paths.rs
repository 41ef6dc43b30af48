//! File names and extensions of `/`-separated paths, as `Path` reads
//! them: the file name is the last component that is neither empty nor
//! `.`, there is none when that component is `..`, and the extension is
//! what follows the last `.` of the file name unless that dot starts it.

use vstd::prelude::*;
use crate::text::{utf8, rfind_byte_before, rfind_byte, bytes_eq};

verus! {

/// The start of the component that ends at `end`.
pub open spec fn component_start(p: Seq<u8>, end: int) -> int {
    match rfind_byte_before(p, 47u8, end) {
        Some(i) => i + 1,
        None => 0,
    }
}

/// The byte range of the last component that is neither empty nor `.`,
/// looking at the bytes before `end`.
pub open spec fn last_component(p: Seq<u8>, end: int) -> Option<(int, int)>
    decreases end,
{
    if end <= 0 || end > p.len() {
        None
    } else if p[end - 1] == 47u8 {
        last_component(p, end - 1)
    } else {
        let s = component_start(p, end);
        if s == end - 1 && p[s] == 46u8 {
            if s > 0 { last_component(p, s) } else { None }
        } else {
            Some((s, end))
        }
    }
}

/// The file name of a path (`Path::file_name`).
pub open spec fn file_name(p: Seq<u8>) -> Option<Seq<u8>> {
    match last_component(p, p.len() as int) {
        Some((s, e)) => {
            let c = p.subrange(s, e);
            if c == seq![46u8, 46u8] { None } else { Some(c) }
        },
        None => None,
    }
}

/// The extension of a path (`Path::extension`).
pub open spec fn extension(p: Seq<u8>) -> Option<Seq<u8>> {
    match file_name(p) {
        Some(name) => match rfind_byte_before(name, 46u8, name.len() as int) {
            Some(d) => if d == 0 { None } else { Some(name.subrange(d + 1, name.len() as int)) },
            None => None,
        },
        None => None,
    }
}

/// The path's extension is exactly `ext`.
pub open spec fn has_extension(path: Seq<char>, ext: Seq<char>) -> bool {
    extension(utf8(path)) == Some(utf8(ext))
}

/// The bytes of the path's file name, as a range.
fn last_component_exec(p: &[u8]) -> (r: Option<(usize, usize)>)
    ensures
        match last_component(p@, p@.len() as int) {
            Some((s, e)) => r matches Some((a, b)) && a == s && b == e && a <= b <= p@.len(),
            None => r is None,
        },
{
    let mut end = p.len();
    while end > 0
        invariant
            end <= p@.len(),
            last_component(p@, p@.len() as int) == last_component(p@, end as int),
        decreases end,
    {
        if p[end - 1] == 47u8 {
            end = end - 1;
        } else {
            proof {
                crate::text::lemma_rfind_byte_bounds(p@, 47u8, end as int);
            }
            let s = match rfind_byte(p, 47u8, end) {
                Some(i) => i + 1,
                None => 0,
            };
            if s == end - 1 && p[s] == 46u8 {
                if s > 0 {
                    end = s;
                } else {
                    return None;
                }
            } else {
                return Some((s, end));
            }
        }
    }
    None
}

/// `Path::extension`, on a `/`-separated path.
pub fn extension_of(path: &str) -> (r: Option<Vec<u8>>)
    ensures
        match extension(utf8(path@)) {
            Some(e) => r matches Some(v) && v@ == e,
            None => r is None,
        },
{
    let p = path.as_bytes();
    match last_component_exec(p) {
        Some((s, e)) => {
            let mut name: Vec<u8> = Vec::new();
            crate::text::push_range(&mut name, p, s, e);
            if name.len() == 2 && name[0] == 46u8 && name[1] == 46u8 {
                assert(name@ =~= seq![46u8, 46u8]);
                return None;
            }
            assert(name@ != seq![46u8, 46u8]);
            let n = name.len();
            match rfind_byte(name.as_slice(), 46u8, n) {
                Some(d) => {
                    proof {
                        crate::text::lemma_rfind_byte_bounds(name@, 46u8, n as int);
                    }
                    if d == 0 {
                        None
                    } else {
                        let mut ext: Vec<u8> = Vec::new();
                        crate::text::push_range(&mut ext, name.as_slice(), d + 1, n);
                        Some(ext)
                    }
                },
                None => None,
            }
        },
        None => None,
    }
}

/// The path's extension is one of `exts`.
pub open spec fn extension_in(path: Seq<char>, exts: Seq<Seq<char>>) -> bool {
    exists|k: int| 0 <= k < exts.len() && has_extension(path, #[trigger] exts[k])
}

/// Whether the path's extension is one of `exts`.
pub fn has_extension_in(path: &str, exts: &[&str]) -> (r: bool)
    ensures
        r == extension_in(path@, exts@.map_values(|e: &str| e@)),
{
    let ghost es = exts@.map_values(|e: &str| e@);
    match extension_of(path) {
        Some(ext) => {
            let mut k: usize = 0;
            while k < exts.len()
                invariant
                    es == exts@.map_values(|e: &str| e@),
                    extension(utf8(path@)) == Some(ext@),
                    k <= exts@.len(),
                    forall|j: int| 0 <= j < k ==> !has_extension(path@, #[trigger] es[j]),
                decreases exts@.len() - k,
            {
                let same = bytes_eq(ext.as_slice(), exts[k].as_bytes());
                assert(es[k as int] == exts@[k as int]@);
                if same {
                    return true;
                }
                proof {
                    crate::text::lemma_utf8_injective(es[k as int], es[k as int]);
                }
                k = k + 1;
            }
            false
        },
        None => false,
    }
}


/// Whether the path's extension is exactly `ext`.
pub fn has_ext(path: &str, ext: &str) -> (r: bool)
    ensures
        r == has_extension(path@, ext@),
{
    match extension_of(path) {
        Some(e) => bytes_eq(e.as_slice(), ext.as_bytes()),
        None => false,
    }
}

} // verus!
