use vstd::prelude::*;

verus! {

/// The byte `.`.
pub const DOT: u8 = 0x2E;

/// The byte `/`.
pub const SLASH: u8 = 0x2F;

/// The lower-case form of an ASCII letter; other bytes stay.
pub open spec fn lower(b: u8) -> u8 {
    if 0x41 <= b <= 0x5A {
        (b + 32) as u8
    } else {
        b
    }
}

/// The extension of `path` starts after the dot at `dot`: it is the last dot,
/// it stands in the last component, and it is not that component's first
/// byte.
pub open spec fn extension_starts(path: Seq<u8>, dot: int) -> bool {
    &&& 0 < dot < path.len()
    &&& path[dot] == DOT
    &&& path[dot - 1] != SLASH
    &&& forall|j: int| dot < j < path.len() ==> path[j] != DOT && path[j] != SLASH
}

/// Whether `path` has an extension.
pub open spec fn has_extension(path: Seq<u8>) -> bool {
    exists|dot: int| extension_starts(path, dot)
}

/// The extension of `path`: what follows the last dot of its last component.
pub open spec fn extension_of(path: Seq<u8>) -> Seq<u8>
    recommends
        has_extension(path),
{
    let dot = choose|dot: int| extension_starts(path, dot);
    path.subrange(dot + 1, path.len() as int)
}

/// `word` in lower case.
pub open spec fn lowered(word: Seq<u8>) -> Seq<u8> {
    Seq::new(word.len(), |i: int| lower(word[i]))
}

/// The extension of `path` is `name`, whatever the case of its letters.
pub open spec fn extension_is(path: Seq<u8>, name: Seq<u8>) -> bool {
    has_extension(path) && lowered(extension_of(path)) == name
}

/// No two dots start the extension.
proof fn lemma_extension_start_unique(path: Seq<u8>, a: int, b: int)
    requires
        extension_starts(path, a),
        extension_starts(path, b),
    ensures
        a == b,
{
}

/// Where the extension of `path` starts, if it has one.
pub fn extension_start(path: &[u8]) -> (r: Option<usize>)
    ensures
        r is Some == has_extension(path@),
        r matches Some(start) ==> start <= path@.len() && extension_of(path@) == path@.subrange(
            start as int,
            path@.len() as int,
        ),
{
    let mut i: usize = path.len();
    while i > 0
        invariant
            i <= path@.len(),
            forall|j: int| i <= j < path@.len() ==> path@[j] != DOT && path@[j] != SLASH,
        decreases i,
    {
        i -= 1;
        if path[i] == SLASH {
            assert forall|dot: int| !extension_starts(path@, dot) by {}
            return None;
        }
        if path[i] == DOT {
            if i > 0 && path[i - 1] != SLASH {
                proof {
                    assert(extension_starts(path@, i as int));
                    let found = choose|dot: int| extension_starts(path@, dot);
                    lemma_extension_start_unique(path@, i as int, found);
                }
                return Some(i + 1);
            }
            assert forall|dot: int| !extension_starts(path@, dot) by {}
            return None;
        }
    }
    assert forall|dot: int| !extension_starts(path@, dot) by {}
    None
}

pub fn to_lower(b: u8) -> (r: u8)
    ensures
        r == lower(b),
{
    if 0x41 <= b && b <= 0x5A {
        b + 32
    } else {
        b
    }
}

/// Whether the extension of `path` is `name`, whatever the case of its
/// letters. `name` is written in lower case.
pub fn has_extension_named(path: &[u8], name: &[u8]) -> (r: bool)
    ensures
        r == extension_is(path@, name@),
{
    let start: usize = match extension_start(path) {
        Some(start) => start,
        None => {
            return false;
        },
    };
    let ghost ext = extension_of(path@);
    if path.len() - start != name.len() {
        return false;
    }
    let mut i: usize = 0;
    while i < name.len()
        invariant
            i <= name@.len(),
            path@.len() <= usize::MAX,
            start + name@.len() == path@.len(),
            ext == path@.subrange(start as int, path@.len() as int),
            forall|j: int| 0 <= j < i ==> lower(ext[j]) == name@[j],
        decreases name@.len() - i,
    {
        if to_lower(path[start + i]) != name[i] {
            assert(lowered(ext)[i as int] != name@[i as int]);
            return false;
        }
        i += 1;
    }
    assert(lowered(ext) =~= name@);
    true
}

/// A file is read by the RAW processor or by the general codec.
#[derive(Debug, Clone, Copy, PartialEq, Eq, Structural)]
pub enum FileKind {
    Raw,
    Standard,
}

/// `raf`.
pub open spec fn raf() -> Seq<u8> {
    seq![0x72u8, 0x61u8, 0x66u8]
}

/// `raw`.
pub open spec fn raw() -> Seq<u8> {
    seq![0x72u8, 0x61u8, 0x77u8]
}

/// `cr2`.
pub open spec fn cr2() -> Seq<u8> {
    seq![0x63u8, 0x72u8, 0x32u8]
}

/// `nef`.
pub open spec fn nef() -> Seq<u8> {
    seq![0x6Eu8, 0x65u8, 0x66u8]
}

/// `arw`.
pub open spec fn arw() -> Seq<u8> {
    seq![0x61u8, 0x72u8, 0x77u8]
}

/// `rw2`.
pub open spec fn rw2() -> Seq<u8> {
    seq![0x72u8, 0x77u8, 0x32u8]
}

/// `dng`.
pub open spec fn dng() -> Seq<u8> {
    seq![0x64u8, 0x6Eu8, 0x67u8]
}

/// `orf`.
pub open spec fn orf() -> Seq<u8> {
    seq![0x6Fu8, 0x72u8, 0x66u8]
}

/// `jpg`.
pub open spec fn jpg() -> Seq<u8> {
    seq![0x6Au8, 0x70u8, 0x67u8]
}

/// `jpeg`.
pub open spec fn jpeg() -> Seq<u8> {
    seq![0x6Au8, 0x70u8, 0x65u8, 0x67u8]
}

/// The extension names a RAW format.
pub open spec fn names_raw(path: Seq<u8>) -> bool {
    extension_is(path, raf()) || extension_is(path, raw()) || extension_is(path, cr2())
        || extension_is(path, nef()) || extension_is(path, arw()) || extension_is(path, rw2())
        || extension_is(path, dng()) || extension_is(path, orf())
}

/// How a file is read, going by its name: a file without an extension, or
/// with an empty one, is not read at all.
pub open spec fn kind_of(path: Seq<u8>) -> Option<FileKind> {
    if !has_extension(path) || extension_of(path).len() == 0 {
        None
    } else if names_raw(path) {
        Some(FileKind::Raw)
    } else {
        Some(FileKind::Standard)
    }
}

/// A file of a directory is listed as a picture when its extension is
/// `jpg`, `jpeg`, `raf` or `raw`.
pub open spec fn listed(path: Seq<u8>) -> bool {
    extension_is(path, jpg()) || extension_is(path, jpeg()) || extension_is(path, raf())
        || extension_is(path, raw())
}

/// How the file at `path` is read, going by its name.
pub fn kind_by_extension(path: &str) -> (r: Option<FileKind>)
    ensures
        r == kind_of(vstd::utf8::encode_utf8(path@)),
{
    let bytes = path.as_bytes();
    match extension_start(bytes) {
        None => {
            return None;
        },
        Some(start) => {
            if start == bytes.len() {
                return None;
            }
        },
    }
    let raf: [u8; 3] = [0x72, 0x61, 0x66];
    let raw: [u8; 3] = [0x72, 0x61, 0x77];
    let cr2: [u8; 3] = [0x63, 0x72, 0x32];
    let nef: [u8; 3] = [0x6E, 0x65, 0x66];
    let arw: [u8; 3] = [0x61, 0x72, 0x77];
    let rw2: [u8; 3] = [0x72, 0x77, 0x32];
    let dng: [u8; 3] = [0x64, 0x6E, 0x67];
    let orf: [u8; 3] = [0x6F, 0x72, 0x66];
    proof {
        assert(raf@ =~= self::raf());
        assert(raw@ =~= self::raw());
        assert(cr2@ =~= self::cr2());
        assert(nef@ =~= self::nef());
        assert(arw@ =~= self::arw());
        assert(rw2@ =~= self::rw2());
        assert(dng@ =~= self::dng());
        assert(orf@ =~= self::orf());
    }
    if has_extension_named(bytes, raf.as_slice()) || has_extension_named(bytes, raw.as_slice())
        || has_extension_named(bytes, cr2.as_slice()) || has_extension_named(
        bytes,
        nef.as_slice(),
    ) || has_extension_named(bytes, arw.as_slice()) || has_extension_named(bytes, rw2.as_slice())
        || has_extension_named(bytes, dng.as_slice()) || has_extension_named(
        bytes,
        orf.as_slice(),
    ) {
        Some(FileKind::Raw)
    } else {
        Some(FileKind::Standard)
    }
}

/// Whether the file at `path` is listed as a picture.
pub fn is_listed(path: &str) -> (r: bool)
    ensures
        r == listed(vstd::utf8::encode_utf8(path@)),
{
    let bytes = path.as_bytes();
    let jpg: [u8; 3] = [0x6A, 0x70, 0x67];
    let jpeg: [u8; 4] = [0x6A, 0x70, 0x65, 0x67];
    let raf: [u8; 3] = [0x72, 0x61, 0x66];
    let raw: [u8; 3] = [0x72, 0x61, 0x77];
    proof {
        assert(jpg@ =~= self::jpg());
        assert(jpeg@ =~= self::jpeg());
        assert(raf@ =~= self::raf());
        assert(raw@ =~= self::raw());
    }
    has_extension_named(bytes, jpg.as_slice()) || has_extension_named(bytes, jpeg.as_slice())
        || has_extension_named(bytes, raf.as_slice()) || has_extension_named(bytes, raw.as_slice())
}

/// Keeps the files that are listed as pictures, in their order.
pub fn list_pictures(files: Vec<String>) -> (r: Vec<String>)
    ensures
        r.deep_view() == files.deep_view().filter(|p: Seq<char>| listed(vstd::utf8::encode_utf8(p))),
{
    let ghost keep = |p: Seq<char>| listed(vstd::utf8::encode_utf8(p));
    let ghost all = files.deep_view();
    let mut kept: Vec<String> = Vec::new();
    let mut i: usize = 0;
    proof {
        reveal(Seq::filter);
        assert(all.take(0) =~= Seq::<Seq<char>>::empty());
        assert(kept.deep_view() =~= all.take(0).filter(keep));
    }
    while i < files.len()
        invariant
            i <= files@.len(),
            all == files.deep_view(),
            all.len() == files@.len(),
            keep == (|p: Seq<char>| listed(vstd::utf8::encode_utf8(p))),
            kept.deep_view() == all.take(i as int).filter(keep),
        decreases files@.len() - i,
    {
        let ghost before = kept.deep_view();
        proof {
            reveal(Seq::filter);
            assert(all.take(i + 1).drop_last() =~= all.take(i as int));
            assert(all.take(i + 1).last() == all[i as int]);
            assert(all[i as int] == files@[i as int]@);
        }
        if is_listed(files[i].as_str()) {
            kept.push(files[i].clone());
            proof {
                assert(kept.deep_view() =~= before.push(all[i as int]));
            }
        } else {
            proof {
                assert(kept.deep_view() =~= before);
            }
        }
        i += 1;
    }
    proof {
        assert(all.take(files@.len() as int) =~= all);
    }
    kept
}

} // verus!
