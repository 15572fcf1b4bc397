//! File names as the platform encodes them: their extension and their stem.

use vstd::prelude::*;
use vstd::slice::slice_subrange;

verus! {

/// The byte that sets an extension apart.
pub const DOT: u8 = 0x2e;

/// The position of the last dot, or -1 where there is none.
pub open spec fn last_dot(name: Seq<u8>) -> int
    decreases name.len(),
{
    if name.len() == 0 {
        -1
    } else if name.last() == DOT {
        name.len() - 1
    } else {
        last_dot(name.drop_last())
    }
}

/// Tells whether the last dot of the name begins an extension. A dot in front
/// marks a hidden file, and `..` is the parent directory.
pub open spec fn has_extension(name: Seq<u8>) -> bool {
    last_dot(name) > 0 && name != seq![DOT, DOT]
}

/// What follows the last dot of the name.
pub open spec fn extension(name: Seq<u8>) -> Option<Seq<u8>> {
    if has_extension(name) {
        Some(name.skip(last_dot(name) + 1))
    } else {
        None
    }
}

/// The name without its extension.
pub open spec fn stem(name: Seq<u8>) -> Seq<u8> {
    if has_extension(name) {
        name.take(last_dot(name))
    } else {
        name
    }
}

/// The bytes of `onnx`, the extension of model files.
pub open spec fn onnx() -> Seq<u8> {
    seq![0x6f, 0x6e, 0x6e, 0x78]
}

/// The last dot is where it is said to be.
pub proof fn lemma_last_dot(name: Seq<u8>)
    ensures
        -1 <= last_dot(name) < name.len(),
        last_dot(name) >= 0 ==> name[last_dot(name)] == DOT,
        forall|i: int| last_dot(name) < i < name.len() ==> name[i] != DOT,
    decreases name.len(),
{
    if name.len() > 0 && name.last() != DOT {
        lemma_last_dot(name.drop_last());
        assert forall|i: int| last_dot(name) < i < name.len() implies name[i] != DOT by {
            if i < name.len() - 1 {
                assert(name.drop_last()[i] == name[i]);
            }
        }
    }
}

/// A dot with none behind it is the last one.
pub proof fn lemma_last_dot_at(name: Seq<u8>, at: int)
    requires
        0 <= at < name.len(),
        name[at] == DOT,
        forall|i: int| at < i < name.len() ==> name[i] != DOT,
    ensures
        last_dot(name) == at,
{
    lemma_last_dot(name);
}

/// Where the extension begins: the position of its dot.
fn extension_dot(name: &[u8]) -> (r: Option<usize>)
    ensures
        r is Some <==> has_extension(name@),
        r matches Some(at) ==> at == last_dot(name@) && at < name@.len(),
{
    proof {
        lemma_last_dot(name@);
    }
    let mut i: usize = name.len();
    while i > 0
        invariant
            i <= name@.len(),
            -1 <= last_dot(name@) < name@.len(),
            last_dot(name@) >= 0 ==> name@[last_dot(name@)] == DOT,
            forall|j: int| last_dot(name@) < j < name@.len() ==> name@[j] != DOT,
            forall|j: int| i <= j < name@.len() ==> name@[j] != DOT,
        decreases i,
    {
        i = i - 1;
        if name[i] == DOT {
            let parent: bool = name.len() == 2 && name[0] == DOT && name[1] == DOT;
            assert(parent ==> name@ == seq![DOT, DOT]);
            assert(last_dot(name@) == i);
            return if i > 0 && !parent {
                Some(i)
            } else {
                None
            };
        }
    }
    None
}

/// Tells whether the name has the extension of model files.
pub fn has_onnx_extension(name: &[u8]) -> (r: bool)
    ensures
        r == (extension(name@) == Some(onnx())),
{
    match extension_dot(name) {
        None => false,
        Some(at) => {
            let r: bool = name.len() - at == 5 && name[at + 1] == 0x6f && name[at + 2] == 0x6e
                && name[at + 3] == 0x6e && name[at + 4] == 0x78;
            proof {
                let ext = name@.skip(at + 1);
                if r {
                    assert(ext =~= onnx());
                }
                if ext == onnx() {
                    assert(ext.len() == 4);
                    assert(ext[0] == name@[at + 1] && ext[1] == name@[at + 2]);
                    assert(ext[2] == name@[at + 3] && ext[3] == name@[at + 4]);
                }
            }
            r
        },
    }
}

/// The name without its extension.
pub fn file_stem(name: &[u8]) -> (r: &[u8])
    ensures
        r@ == stem(name@),
{
    match extension_dot(name) {
        None => name,
        Some(at) => slice_subrange(name, 0, at),
    }
}

/// A name has an extension where something stands in front of its last dot, and
/// the extension is what follows that dot. In front of it stands the stem. The
/// parent directory has none.
pub proof fn law_stem_dot_and_extension_make_up_the_name(before: Seq<u8>, after: Seq<u8>)
    requires
        before.len() > 0,
        !after.contains(DOT),
        before + seq![DOT] + after != seq![DOT, DOT],
    ensures
        stem(before + seq![DOT] + after) == before,
        extension(before + seq![DOT] + after) == Some(after),
        DOT == '.' as u8,
{
    let name = before + seq![DOT] + after;
    let at = before.len() as int;
    assert forall|i: int| at < i < name.len() implies name[i] != DOT by {
        assert(name[i] == after[i - at - 1]);
        assert(after.contains(after[i - at - 1]));
    }
    lemma_last_dot_at(name, at);
    assert(name.take(at) =~= before);
    assert(name.skip(at + 1) =~= after);
}

/// A name without a dot behind its first byte has no extension, and is its own
/// stem.
pub proof fn law_name_without_extension(name: Seq<u8>)
    requires
        name == seq![DOT, DOT] || forall|i: int| 0 < i < name.len() ==> name[i] != DOT,
    ensures
        stem(name) == name,
        extension(name) is None,
{
    lemma_last_dot(name);
}

/// The bytes that the name of a model ends with: those of `.onnx`.
pub open spec fn model_suffix() -> Seq<u8> {
    seq!['.' as u8, 'o' as u8, 'n' as u8, 'n' as u8, 'x' as u8]
}

/// A name has the extension of model files exactly where it ends with `.onnx` and
/// something stands in front of that, and what stands there is its stem.
pub proof fn law_models_end_with_onnx(name: Seq<u8>)
    ensures
        extension(name) == Some(onnx()) <==> name.len() > 5 && name.skip(name.len() - 5) == seq![
            '.' as u8,
            'o' as u8,
            'n' as u8,
            'n' as u8,
            'x' as u8,
        ],
        extension(name) == Some(onnx()) ==> stem(name) == name.take(name.len() - 5) && stem(name)
            + model_suffix() == name,
{
    let end = model_suffix();
    lemma_last_dot(name);
    if extension(name) == Some(onnx()) {
        let at = last_dot(name);
        let ext = name.skip(at + 1);
        assert(ext == onnx());
        assert(ext.len() == 4);
        assert(name.len() == at + 5);
        assert forall|i: int| 0 <= i < 5 implies name.skip(name.len() - 5)[i] == end[i] by {
            if i > 0 {
                assert(name.skip(name.len() - 5)[i] == ext[i - 1]);
            }
        }
        assert(name.skip(name.len() - 5) =~= end);
        assert(stem(name) + end =~= name);
    }
    if name.len() > 5 && name.skip(name.len() - 5) == end {
        let at = name.len() - 5;
        assert forall|i: int| 0 <= i < 5 implies name[at + i] == end[i] by {
            assert(name.skip(at)[i] == end[i]);
        }
        assert(name[at] == end[0]);
        assert(name[at + 1] == end[1]);
        assert(name[at + 2] == end[2]);
        assert(name[at + 3] == end[3]);
        assert(name[at + 4] == end[4]);
        lemma_last_dot_at(name, at);
        assert(name.skip(at + 1) =~= onnx());
    }
}

} // verus!
