//! Paths: a name in a directory, for paths that are bytes and for paths that are text.

use vstd::prelude::*;
use vstd::utf8::encode_utf8;

verus! {

/// The path of `name` in the directory `dir`: a slash between them unless `dir` is empty or
/// ends with one.
pub open spec fn path_in(dir: Seq<u8>, name: Seq<u8>) -> Seq<u8> {
    if dir.len() == 0 || dir.last() == 47 {
        dir + name
    } else {
        dir.push(47) + name
    }
}

/// The same bytes once more.
pub fn copy_bytes(bytes: &Vec<u8>) -> (r: Vec<u8>)
    ensures
        r@ == bytes@,
{
    let mut r: Vec<u8> = Vec::new();
    let n: usize = bytes.len();
    let mut i: usize = 0;
    while i < n
        invariant
            i <= n == bytes@.len(),
            r@ == bytes@.take(i as int),
        decreases n - i,
    {
        r.push(bytes[i]);
        i = i + 1;
    }
    r
}

/// The path of `name` in the directory `dir`.
pub fn join_path(dir: &Vec<u8>, name: &str) -> (r: Vec<u8>)
    ensures
        r@ == path_in(dir@, encode_utf8(name@)),
{
    let mut r: Vec<u8> = copy_bytes(dir);
    let n: usize = dir.len();
    if n > 0 && dir[n - 1] != 47 {
        r.push(47);
    }
    let ghost head = r@;
    let bytes = name.as_bytes();
    let m: usize = bytes.len();
    let mut j: usize = 0;
    while j < m
        invariant
            j <= m == bytes@.len(),
            r@ == head + bytes@.take(j as int),
        decreases m - j,
    {
        r.push(bytes[j]);
        j = j + 1;
        assert(r@ =~= head + bytes@.take(j as int));
    }
    assert(r@ =~= path_in(dir@, encode_utf8(name@)));
    r
}

/// The path of `name` in the directory `dir`, both of them text: a slash between them unless
/// `dir` is empty or ends with one.
pub open spec fn text_path_in(dir: Seq<char>, name: Seq<char>) -> Seq<char> {
    if dir.len() == 0 || dir.last() == '/' {
        dir + name
    } else {
        dir.push('/') + name
    }
}

/// The path of `name` in the directory `dir`, both of them text.
pub fn join_text_path(dir: &str, name: &str) -> (r: String)
    ensures
        r@ == text_path_in(dir@, name@),
{
    let chars: Vec<char> = crate::text::chars_of(dir);
    let n: usize = chars.len();
    let mut r: String = dir.to_owned();
    if n > 0 && chars[n - 1] != '/' {
        r.push('/');
    }
    r.append(name);
    r
}

/// A name in a directory is the directory, one slash, and the name; no slash is put behind
/// one that is there, nor before everything.
pub proof fn law_one_slash_stands_between(
    dir: Seq<u8>,
    name: Seq<u8>,
    text_dir: Seq<char>,
    text_name: Seq<char>,
)
    ensures
        dir.len() > 0 && dir.last() != '/' as u8 ==> path_in(dir, name) == dir + seq!['/' as u8]
            + name,
        dir.len() == 0 || dir.last() == '/' as u8 ==> path_in(dir, name) == dir + name,
        text_dir.len() > 0 && text_dir.last() != '/' ==> text_path_in(text_dir, text_name)
            == text_dir + seq!['/'] + text_name,
        text_dir.len() == 0 || text_dir.last() == '/' ==> text_path_in(text_dir, text_name)
            == text_dir + text_name,
{
    assert(dir.push(47) =~= dir + seq![47u8]);
    assert(text_dir.push('/') =~= text_dir + seq!['/']);
}

} // verus!
