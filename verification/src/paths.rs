//! Paths, as text and in the encoding of the system, and the platforms whose
//! paths they are.

use vstd::prelude::*;
use vstd::string::*;
use vstd::utf8::*;

use crate::text::texts;
use crate::text::{chars_of, push_text, same_text};

verus! {

/// The family of systems that a path or a command line is written for.
#[derive(Clone, Copy, Debug, PartialEq, Eq, Structural)]
pub enum Platform {
    Unix,
    Windows,
}

/// Whether `c` parts the components of a path.
pub open spec fn is_separator(platform: Platform, c: char) -> bool {
    match platform {
        Platform::Unix => c == '/',
        Platform::Windows => c == '/' || c == '\\',
    }
}

/// The separator that joining two paths puts between them.
pub open spec fn main_separator(platform: Platform) -> char {
    match platform {
        Platform::Unix => '/',
        Platform::Windows => '\\',
    }
}

/// Whether `c` is an ASCII letter.
pub open spec fn is_letter(c: char) -> bool {
    'a' <= c <= 'z' || 'A' <= c <= 'Z'
}

/// Whether `path` is a drive and nothing more, such as `C:`.
pub open spec fn is_bare_drive(path: Seq<char>) -> bool {
    path.len() == 2 && is_letter(path[0]) && path[1] == ':'
}

/// Whether a separator is missing before a component can follow `base`.
pub open spec fn lacks_separator(platform: Platform, base: Seq<char>) -> bool {
    &&& base.len() > 0
    &&& !is_separator(platform, base.last())
    &&& !(platform == Platform::Windows && is_bare_drive(base))
}

/// `base` followed by the component `name`.
pub open spec fn joined(platform: Platform, base: Seq<char>, name: Seq<char>) -> Seq<char> {
    if lacks_separator(platform, base) {
        base.push(main_separator(platform)) + name
    } else {
        base + name
    }
}

/// The content of optional bytes.
pub open spec fn opt_bytes(s: Option<Vec<u8>>) -> Option<Seq<u8>> {
    match s {
        Some(s) => Some(s@),
        None => None,
    }
}

/// Bytes, each taken for the character of the same number.
pub open spec fn bytewise(bytes: Seq<u8>) -> Seq<char> {
    bytes.map_values(|b: u8| b as char)
}

/// `base` followed by the component `name`, where `base` is a path in the
/// encoding of the system. That extends UTF-8, so that a byte below 128 stands
/// for an ASCII character wherever it occurs; the rest need not be text.
pub open spec fn joined_bytes(platform: Platform, base: Seq<u8>, name: Seq<char>) -> Seq<u8> {
    if lacks_separator(platform, bytewise(base)) {
        base.push(main_separator(platform) as u8) + encode_utf8(name)
    } else {
        base + encode_utf8(name)
    }
}

/// Follows the path `base`, in the encoding of the system, by one component, the
/// plain name of a file or a directory.
pub fn join(platform: Platform, base: &[u8], name: &str) -> (r: Vec<u8>)
    ensures
        r@ == joined_bytes(platform, base@, name@),
{
    let n: usize = base.len();
    let windows = platform == Platform::Windows;
    let mut out: Vec<u8> = Vec::new();
    out.extend_from_slice(base);
    assert(out@ =~= base@);
    if n > 0 {
        let last = base[n - 1] as char;
        let ends_open = last != '/' && !(windows && last == '\\');
        let drive = windows && n == 2 && base[1] as char == ':' && ascii_letter(base[0] as char);
        assert(bytewise(base@).last() == last);
        if ends_open && !drive {
            out.push(
                if windows {
                    92
                } else {
                    47
                },
            );
        }
    }
    let ghost head = out@;
    out.extend_from_slice(name.as_bytes());
    assert(out@ =~= head + encode_utf8(name@));
    out
}

fn ascii_letter(c: char) -> (r: bool)
    ensures
        r == is_letter(c),
{
    ('a' <= c && c <= 'z') || ('A' <= c && c <= 'Z')
}

/// Two components joined on one base are the same path only if they are the
/// same component.
pub proof fn join_is_injective(platform: Platform, base: Seq<u8>, a: Seq<char>, b: Seq<char>)
    requires
        joined_bytes(platform, base, a) == joined_bytes(platform, base, b),
    ensures
        a == b,
{
    let head = if lacks_separator(platform, bytewise(base)) {
        base.push(main_separator(platform) as u8)
    } else {
        base
    };
    assert(encode_utf8(a) =~= (head + encode_utf8(a)).skip(head.len() as int));
    assert(encode_utf8(b) =~= (head + encode_utf8(b)).skip(head.len() as int));
    encode_utf8_decode_utf8(a);
    encode_utf8_decode_utf8(b);
}

/// Text is encoded part by part.
proof fn lemma_encode_parts(a: Seq<char>, b: Seq<char>)
    ensures
        encode_utf8(a + b) == encode_utf8(a) + encode_utf8(b),
    decreases a.len(),
{
    if a.len() == 0 {
        assert(a + b =~= b);
        assert(encode_utf8(a) + encode_utf8(b) =~= encode_utf8(b));
    } else {
        assert((a + b).drop_first() =~= a.drop_first() + b);
        lemma_encode_parts(a.drop_first(), b);
        let first = encode_scalar(a[0] as u32);
        assert(encode_utf8(a + b) =~= first + encode_utf8(a.drop_first()) + encode_utf8(b));
    }
}

/// An ASCII character is encoded as the byte of its number.
proof fn lemma_encode_ascii(c: char)
    requires
        c <= '\u{7f}',
    ensures
        encode_utf8(seq![c]) == seq![c as u8],
        (c as u8) as char == c,
{
    let s = seq![c];
    is_ascii_chars_encode_utf8(s);
    assert(s[0] as u8 == encode_utf8(s)[0]);
    assert(encode_utf8(s) =~= seq![c as u8]);
}

/// A character that is not ASCII is encoded in bytes that are not either.
proof fn lemma_encode_other(c: char)
    requires
        c > '\u{7f}',
    ensures
        encode_utf8(seq![c]).len() >= 2,
        encode_utf8(seq![c]).last() >= 128,
{
    let u = c as u32;
    assert(last_continuation_byte(u) >= 128) by (bit_vector);
    assert(seq![c].drop_first() =~= seq![]);
    assert(encode_utf8(seq![]) =~= seq![]);
    assert(encode_utf8(seq![c]) =~= encode_scalar(u));
}

/// Joining to a path that is text gives the path that is that text followed by
/// the component.
pub proof fn text_is_joined_as_text(platform: Platform, base: Seq<char>, name: Seq<char>)
    ensures
        joined_bytes(platform, encode_utf8(base), name) == encode_utf8(
            joined(platform, base, name),
        ),
{
    let bytes = encode_utf8(base);
    let sep = main_separator(platform);
    if base.len() == 0 {
        assert(base + name =~= name);
        assert(bytes + encode_utf8(name) =~= encode_utf8(name));
    } else {
        let front = base.drop_last();
        let c = base.last();
        assert(base =~= front + seq![c]);
        lemma_encode_parts(front, seq![c]);
        if c <= '\u{7f}' {
            lemma_encode_ascii(c);
            assert(bytewise(bytes).last() == bytes.last() as char);
        } else {
            lemma_encode_other(c);
            assert(bytes.last() >= 128);
            assert(bytewise(bytes).last() as u32 >= 128);
        }
        lemma_bare_drive(base);
        lemma_encode_parts(base, name);
        lemma_encode_ascii(sep);
        lemma_encode_parts(base, seq![sep]);
        lemma_encode_parts(base.push(sep), name);
        assert(base.push(sep) =~= base + seq![sep]);
        assert(bytes.push(sep as u8) =~= bytes + seq![sep as u8]);
    }
}

/// A text is a drive and nothing more if and only if its bytes are.
proof fn lemma_bare_drive(text: Seq<char>)
    ensures
        is_bare_drive(bytewise(encode_utf8(text))) == is_bare_drive(text),
{
    let bytes = encode_utf8(text);
    if is_bare_drive(text) {
        is_ascii_chars_encode_utf8(text);
        assert(text[0] as u8 == bytes[0] && text[1] as u8 == bytes[1]);
    }
    if is_bare_drive(bytewise(bytes)) {
        let other = bytewise(bytes);
        assert(other[0] == bytes[0] as char && other[1] == bytes[1] as char);
        is_ascii_chars_encode_utf8(other);
        assert(other[0] as u8 == encode_utf8(other)[0] && other[1] as u8 == encode_utf8(other)[1]);
        assert(encode_utf8(other) =~= bytes);
        encode_utf8_decode_utf8(other);
        encode_utf8_decode_utf8(text);
    }
}

/// The components of a path: the texts between its separators.
pub open spec fn components(platform: Platform, path: Seq<char>) -> Seq<Seq<char>>
    decreases path.len(),
{
    if path.len() == 0 {
        seq![]
    } else {
        let before = components(platform, path.drop_last());
        if is_separator(platform, path.last()) {
            before
        } else if begins_component(platform, path.drop_last()) {
            before.push(seq![path.last()])
        } else {
            before.drop_last().push(before.last().push(path.last()))
        }
    }
}

/// Whether a character behind `path` begins a component, if it is no separator.
pub open spec fn begins_component(platform: Platform, path: Seq<char>) -> bool {
    path.len() == 0 || is_separator(platform, path.last())
}

/// Whether a path begins with a separator.
pub open spec fn is_rooted(platform: Platform, path: Seq<char>) -> bool {
    path.len() > 0 && is_separator(platform, path[0])
}

/// Whether `path` is `base` or lies below it: the components of `base` are the
/// first components of `path`.
pub open spec fn is_inside(platform: Platform, base: Seq<char>, path: Seq<char>) -> bool {
    &&& is_rooted(platform, base) == is_rooted(platform, path)
    &&& components(platform, base).is_prefix_of(components(platform, path))
}

/// A path that does not end in a separator has a last component.
proof fn lemma_last_component(platform: Platform, path: Seq<char>)
    requires
        !begins_component(platform, path),
    ensures
        components(platform, path).len() > 0,
{
}

fn char_is_separator(platform: Platform, c: char) -> (r: bool)
    ensures
        r == is_separator(platform, c),
{
    match platform {
        Platform::Unix => c == '/',
        Platform::Windows => c == '/' || c == '\\',
    }
}

/// The components of a path.
pub fn components_of(platform: Platform, path: &str) -> (r: Vec<String>)
    ensures
        texts(r@) == components(platform, path@),
{
    let chars = chars_of(path);
    let mut out: Vec<String> = Vec::new();
    let mut i: usize = 0;
    assert(path@.take(0) =~= seq![]);
    assert(texts(out@) =~= seq![]);
    while i < chars.len()
        invariant
            chars@ == path@,
            i <= path@.len(),
            texts(out@) == components(platform, path@.take(i as int)),
        decreases chars.len() - i,
    {
        let ghost before = path@.take(i as int);
        assert(path@.take(i + 1).drop_last() =~= before);
        let c = chars[i];
        if !char_is_separator(platform, c) {
            if i == 0 || char_is_separator(platform, chars[i - 1]) {
                let mut one = String::new();
                one.push(c);
                assert(one@ =~= seq![c]);
                push_text(&mut out, one.as_str());
            } else {
                proof {
                    lemma_last_component(platform, before);
                }
                let ghost parts = texts(out@);
                match out.pop() {
                    Some(last) => {
                        let mut last = last;
                        assert(last@ == parts.last());
                        assert(texts(out@) =~= parts.drop_last());
                        last.push(c);
                        push_text(&mut out, last.as_str());
                    },
                    None => {},
                }
            }
        }
        i = i + 1;
    }
    assert(path@.take(i as int) =~= path@);
    out
}

fn is_rooted_path(platform: Platform, path: &str) -> (r: bool)
    ensures
        r == is_rooted(platform, path@),
{
    let chars = chars_of(path);
    chars.len() > 0 && char_is_separator(platform, chars[0])
}

/// Whether `path` is `base` or lies below it.
pub fn lies_inside(platform: Platform, base: &str, path: &str) -> (r: bool)
    ensures
        r == is_inside(platform, base@, path@),
{
    if is_rooted_path(platform, base) != is_rooted_path(platform, path) {
        return false;
    }
    let outer = components_of(platform, base);
    let inner = components_of(platform, path);
    let ghost (a, b) = (texts(outer@), texts(inner@));
    if outer.len() > inner.len() {
        return false;
    }
    let mut i: usize = 0;
    while i < outer.len()
        invariant
            a == texts(outer@),
            b == texts(inner@),
            a == components(platform, base@),
            b == components(platform, path@),
            i <= a.len() <= b.len(),
            forall|j: int| 0 <= j < i ==> a[j] == b[j],
        decreases outer.len() - i,
    {
        assert(a[i as int] == outer@[i as int]@ && b[i as int] == inner@[i as int]@);
        if !same_text(outer[i].as_str(), inner[i].as_str()) {
            assert(b.subrange(0, a.len() as int)[i as int] != a[i as int]);
            return false;
        }
        i = i + 1;
    }
    assert(b.subrange(0, a.len() as int) =~= a);
    true
}

/// A path lies inside itself, and what lies inside a path that lies inside
/// another lies inside that one.
pub proof fn inside_is_an_order(platform: Platform, a: Seq<char>, b: Seq<char>, c: Seq<char>)
    ensures
        is_inside(platform, a, a),
        is_inside(platform, a, b) && is_inside(platform, b, c) ==> is_inside(platform, a, c),
{
    let (x, y, z) = (components(platform, a), components(platform, b), components(platform, c));
    assert(x.subrange(0, x.len() as int) =~= x);
    if is_inside(platform, a, b) && is_inside(platform, b, c) {
        assert(z.subrange(0, x.len() as int) =~= z.subrange(0, y.len() as int).subrange(
            0,
            x.len() as int,
        ));
    }
}

/// Whether a text is the plain name of a file or a directory.
pub open spec fn is_name(platform: Platform, name: Seq<char>) -> bool {
    name.len() > 0 && forall|i: int|
        0 <= i < name.len() ==> !is_separator(platform, #[trigger] name[i])
}

/// What is joined to a path lies inside it, one component further down.
pub proof fn joined_lies_inside(platform: Platform, base: Seq<char>, name: Seq<char>)
    requires
        base.len() > 0,
        is_name(platform, name),
        !(platform == Platform::Windows && is_bare_drive(base)),
    ensures
        components(platform, joined(platform, base, name)) == components(platform, base).push(name),
        is_inside(platform, base, joined(platform, base, name)),
{
    let open = if lacks_separator(platform, base) {
        base.push(main_separator(platform))
    } else {
        base
    };
    assert(open.drop_last() =~= base || open == base);
    lemma_name_is_component(platform, open, name);
    let all = components(platform, open + name);
    let front = components(platform, base);
    assert(all.subrange(0, front.len() as int) =~= front);
}

proof fn lemma_name_is_component(platform: Platform, open: Seq<char>, name: Seq<char>)
    requires
        begins_component(platform, open),
        is_name(platform, name),
    ensures
        components(platform, open + name) == components(platform, open).push(name),
    decreases name.len(),
{
    let front = name.drop_last();
    let c = name[name.len() - 1];
    assert((open + name).drop_last() =~= open + front);
    assert((open + name).last() == c);
    if front.len() == 0 {
        assert(open + front =~= open);
        assert(name =~= seq![c]);
    } else {
        assert(forall|i: int| 0 <= i < front.len() ==> front[i] == #[trigger] name[i]);
        lemma_name_is_component(platform, open, front);
        let before = components(platform, open + front);
        assert((open + front).last() == front[front.len() - 1]);
        assert(before.drop_last() =~= components(platform, open));
        assert(front.push(c) =~= name);
    }
}

/// On Unix a slash parts the components of a path and nothing else does; on
/// Windows a slash or a backslash does. What is joined to a path stands behind
/// one of these, and one is put between them unless the path ends in one, is
/// empty, or is a bare drive of Windows.
pub proof fn components_are_parted(platform: Platform, base: Seq<char>, name: Seq<char>, c: char)
    ensures
        is_separator(Platform::Unix, c) <==> c == '/',
        is_separator(Platform::Windows, c) <==> c == '/' || c == '\\',
        base.len() > 0 && base.last() != '/' ==> joined(Platform::Unix, base, name) == base.push('/')
            + name,
        base.len() > 0 && base.last() == '/' ==> joined(platform, base, name) == base + name,
        base.len() == 0 ==> joined(platform, base, name) == name,
        base.len() > 2 && base.last() != '/' && base.last() != '\\' ==> joined(
            Platform::Windows,
            base,
            name,
        ) == base.push('\\') + name,
        base.len() > 0 && base.last() == '\\' ==> joined(Platform::Windows, base, name) == base
            + name,
        'A' <= c <= 'Z' || 'a' <= c <= 'z' ==> joined(Platform::Windows, seq![c, ':'], name)
            == seq![c, ':'] + name,
        base.len() == 1 && base[0] != '/' && base[0] != '\\' ==> joined(
            Platform::Windows,
            base,
            name,
        ) == base.push('\\') + name,
        base.len() == 2 && base[1] != '/' && base[1] != '\\' && base[1] != ':' ==> joined(
            Platform::Windows,
            base,
            name,
        ) == base.push('\\') + name,
{
    if base.len() == 0 {
        assert(base + name =~= name);
    }
}

/// A path without separators is its own only component, a separator behind a
/// path adds none, and a name behind a separator adds itself.
pub proof fn components_stand_between_separators(
    platform: Platform,
    path: Seq<char>,
    name: Seq<char>,
    sep: char,
)
    requires
        is_name(platform, name),
        is_separator(platform, sep),
    ensures
        components(platform, seq![]) == Seq::<Seq<char>>::empty(),
        components(platform, name) == seq![name],
        components(platform, path.push(sep)) == components(platform, path),
        components(platform, path.push(sep) + name) == components(platform, path).push(name),
        is_rooted(platform, path) <==> path.len() > 0 && is_separator(platform, path[0]),
{
    let none = Seq::<char>::empty();
    lemma_name_is_component(platform, none, name);
    assert(none + name =~= name);
    assert(components(platform, none).push(name) =~= seq![name]);
    assert(path.push(sep).drop_last() =~= path);
    lemma_name_is_component(platform, path.push(sep), name);
}

/// A folder lies inside another if and only if it is the same or goes on behind
/// it: what has another name beside it does not lie inside it, though the name
/// begin alike, nor does a folder lie inside what is in it.
pub proof fn neighbours_do_not_lie_inside(
    platform: Platform,
    base: Seq<char>,
    a: Seq<char>,
    b: Seq<char>,
    sep: char,
)
    requires
        base.len() > 0,
        is_name(platform, a),
        is_name(platform, b),
        is_separator(platform, sep),
    ensures
        is_inside(platform, base.push(sep) + a, base.push(sep) + b) <==> a == b,
        is_inside(platform, base, base.push(sep) + a),
        !is_inside(platform, base.push(sep) + a, base),
        is_inside(platform, base.push(sep) + a, base.push(sep) + a + seq![sep] + b),
{
    components_stand_between_separators(platform, base, a, sep);
    components_stand_between_separators(platform, base, b, sep);
    let (x, y) = (base.push(sep) + a, base.push(sep) + b);
    components_stand_between_separators(platform, x, b, sep);
    let c = components(platform, base);
    let (p, q) = (components(platform, x), components(platform, y));
    assert(x[0] == base[0] && y[0] == base[0]);
    assert(p.last() == a && q.last() == b);
    assert(q.subrange(0, p.len() as int) =~= q);
    assert(p.subrange(0, c.len() as int) =~= c);
    let z = x + seq![sep] + b;
    assert(x.push(sep) =~= x + seq![sep]);
    assert(z[0] == base[0]);
    assert(components(platform, z).subrange(0, p.len() as int) =~= p);
}

} // verus!
