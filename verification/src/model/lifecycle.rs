//! Models cached on local disk: what a GGUF file tells about the model it holds, and
//! listings of such models ordered by name.
use vstd::prelude::*;
use crate::model::formats::ggml::GgmlType;
use crate::model::formats::gguf::GgufFile;
use crate::model::formats::keys::{self, key_lt, KeyOrder};
use crate::model::formats::metadata::meta_get;
use crate::model::formats::value::GgufValueModel;
use crate::text;

verus! {

/// A model cached on local disk.
#[derive(Debug, Clone)]
pub struct LocalModel {
    pub name: String,
    pub path: String,
    pub size_bytes: u64,
    pub format: String,
    pub architecture: Option<String>,
    pub quantization: Option<String>,
    pub tensor_count: usize,
}

/// How a tensor type prints (`{:?}`).
pub open spec fn ggml_name(t: GgmlType) -> Seq<char> {
    match t {
        GgmlType::F32 => "F32"@,
        GgmlType::F16 => "F16"@,
        GgmlType::Q4_0 => "Q4_0"@,
        GgmlType::Q4_1 => "Q4_1"@,
        GgmlType::Q5_0 => "Q5_0"@,
        GgmlType::Q5_1 => "Q5_1"@,
        GgmlType::Q8_0 => "Q8_0"@,
        GgmlType::Q8_1 => "Q8_1"@,
        GgmlType::Q2K => "Q2K"@,
        GgmlType::Q3K => "Q3K"@,
        GgmlType::Q4K => "Q4K"@,
        GgmlType::Q5K => "Q5K"@,
        GgmlType::Q6K => "Q6K"@,
        GgmlType::Q8K => "Q8K"@,
        GgmlType::Iq2Xxs => "Iq2Xxs"@,
        GgmlType::Iq2Xs => "Iq2Xs"@,
        GgmlType::Iq3Xxs => "Iq3Xxs"@,
        GgmlType::Iq1S => "Iq1S"@,
        GgmlType::Iq4Nl => "Iq4Nl"@,
        GgmlType::Iq3S => "Iq3S"@,
        GgmlType::Iq2S => "Iq2S"@,
        GgmlType::Iq4Xs => "Iq4Xs"@,
        GgmlType::I8 => "I8"@,
        GgmlType::I16 => "I16"@,
        GgmlType::I32 => "I32"@,
        GgmlType::I64 => "I64"@,
        GgmlType::F64 => "F64"@,
        GgmlType::Iq1M => "Iq1M"@,
    }
}

/// The printed name of a tensor type.
pub fn ggml_type_name(t: GgmlType) -> (r: &'static str)
    ensures
        r@ == ggml_name(t),
{
    match t {
        GgmlType::F32 => "F32",
        GgmlType::F16 => "F16",
        GgmlType::Q4_0 => "Q4_0",
        GgmlType::Q4_1 => "Q4_1",
        GgmlType::Q5_0 => "Q5_0",
        GgmlType::Q5_1 => "Q5_1",
        GgmlType::Q8_0 => "Q8_0",
        GgmlType::Q8_1 => "Q8_1",
        GgmlType::Q2K => "Q2K",
        GgmlType::Q3K => "Q3K",
        GgmlType::Q4K => "Q4K",
        GgmlType::Q5K => "Q5K",
        GgmlType::Q6K => "Q6K",
        GgmlType::Q8K => "Q8K",
        GgmlType::Iq2Xxs => "Iq2Xxs",
        GgmlType::Iq2Xs => "Iq2Xs",
        GgmlType::Iq3Xxs => "Iq3Xxs",
        GgmlType::Iq1S => "Iq1S",
        GgmlType::Iq4Nl => "Iq4Nl",
        GgmlType::Iq3S => "Iq3S",
        GgmlType::Iq2S => "Iq2S",
        GgmlType::Iq4Xs => "Iq4Xs",
        GgmlType::I8 => "I8",
        GgmlType::I16 => "I16",
        GgmlType::I32 => "I32",
        GgmlType::I64 => "I64",
        GgmlType::F64 => "F64",
        GgmlType::Iq1M => "Iq1M",
    }
}

/// The string a metadata key holds, if it holds one.
pub open spec fn meta_string(gguf: GgufFile, key: Seq<char>) -> Option<Seq<char>> {
    match meta_get(gguf.metadata@, key) {
        Some(GgufValueModel::String(s)) => Some(s),
        _ => None,
    }
}

impl LocalModel {
    /// What a parsed GGUF file at `path` (of `size_bytes` bytes, whose name without
    /// extension is `file_stem`) says of its model: the name is the file's model name,
    /// else the file stem, else `unknown`; the quantization is the first tensor's type.
    pub fn from_gguf(gguf: &GgufFile, path: &str, file_stem: Option<&str>, size_bytes: u64) -> (r:
        LocalModel)
        ensures
            r.name@ == match meta_string(*gguf, "general.name"@) {
                Some(n) => n,
                None => match file_stem {
                    Some(s) => s@,
                    None => "unknown"@,
                },
            },
            r.path@ == path@,
            r.size_bytes == size_bytes,
            r.format@ == "gguf"@,
            match meta_string(*gguf, "general.architecture"@) {
                Some(a) => r.architecture matches Some(x) && x@ == a,
                None => r.architecture is None,
            },
            gguf.tensors@.len() == 0 ==> r.quantization is None,
            gguf.tensors@.len() > 0 ==> (r.quantization matches Some(q) && q@ == ggml_name(
                gguf.tensors@[0].ggml_type,
            )),
            r.tensor_count == gguf.tensors@.len(),
    {
        let name = match gguf.model_name() {
            Some(n) => text::owned(n),
            None => match file_stem {
                Some(s) => text::owned(s),
                None => text::owned("unknown"),
            },
        };
        let architecture = match gguf.architecture() {
            Some(a) => Some(text::owned(a)),
            None => None,
        };
        let quantization = if gguf.tensors.len() > 0 {
            Some(text::owned(ggml_type_name(gguf.tensors[0].ggml_type)))
        } else {
            None
        };
        LocalModel {
            name,
            path: text::owned(path),
            size_bytes,
            format: text::owned("gguf"),
            architecture,
            quantization,
            tensor_count: gguf.tensors.len(),
        }
    }
}

/// Names in order, as `str`'s `Ord` compares them (byte by byte).
pub open spec fn name_le(a: LocalModel, b: LocalModel) -> bool {
    !key_lt(b.name@, a.name@)
}

/// Where a stable sort puts `x` among sorted models: after every model whose name is
/// not greater.
pub open spec fn insert_sorted(s: Seq<LocalModel>, x: LocalModel) -> Seq<LocalModel>
    decreases s.len(),
{
    if s.len() == 0 {
        seq![x]
    } else if key_lt(x.name@, s.last().name@) {
        insert_sorted(s.drop_last(), x).push(s.last())
    } else {
        s.push(x)
    }
}

/// The stable sort by name (`sort_by` on names): each model in turn is put after
/// every earlier model whose name is not greater.
pub open spec fn sorted_by_name(s: Seq<LocalModel>) -> Seq<LocalModel>
    decreases s.len(),
{
    if s.len() == 0 {
        Seq::empty()
    } else {
        insert_sorted(sorted_by_name(s.drop_last()), s.last())
    }
}

/// The models ordered by name; models of equal name keep their order.
pub fn sort_by_name(models: Vec<LocalModel>) -> (r: Vec<LocalModel>)
    ensures
        r@ == sorted_by_name(models@),
{
    let ghost input = models@;
    let mut out: Vec<LocalModel> = Vec::new();
    for m in it: models
        invariant
            it.seq() == input,
            out@ == sorted_by_name(input.take(it.index() as int)),
    {
        let ghost k = it.index() as int;
        assert(input.take(k + 1).drop_last() =~= input.take(k));
        assert(input.take(k + 1).last() == m);
        insert_model(&mut out, m);
    }
    assert(input.take(input.len() as int) =~= input);
    out
}

/// Puts `x` into sorted models after every model whose name is not greater.
fn insert_model(out: &mut Vec<LocalModel>, x: LocalModel)
    ensures
        final(out)@ == insert_sorted(old(out)@, x),
{
    let ghost s = out@;
    let mut i: usize = out.len();
    assert(s.take(i as int) =~= s);
    assert(s.skip(i as int) =~= Seq::<LocalModel>::empty());
    assert(insert_sorted(s, x) + Seq::<LocalModel>::empty() =~= insert_sorted(s, x));
    while i > 0 && is_before(&x, &out[i - 1])
        invariant
            out@ == s,
            i <= s.len(),
            insert_sorted(s, x) == insert_sorted(s.take(i as int), x) + s.skip(i as int),
        decreases i,
    {
        proof {
            let t = s.take(i as int);
            assert(t.drop_last() =~= s.take(i - 1));
            assert(t.last() == s[i - 1]);
            assert(insert_sorted(t, x) == insert_sorted(s.take(i - 1), x).push(s[i - 1]));
            assert(s.skip(i - 1) =~= seq![s[i - 1]] + s.skip(i as int));
            assert(insert_sorted(s.take(i - 1), x).push(s[i - 1]) + s.skip(i as int) =~= insert_sorted(
                s.take(i - 1),
                x,
            ) + s.skip(i - 1));
        }
        i = i - 1;
    }
    proof {
        let t = s.take(i as int);
        if i > 0 {
            assert(t.last() == s[i - 1]);
        }
        assert(insert_sorted(t, x) == t.push(x));
        assert(t.push(x) + s.skip(i as int) =~= s.insert(i as int, x));
    }
    out.insert(i, x);
}

/// Whether `a` goes before `b`: its name is smaller.
fn is_before(a: &LocalModel, b: &LocalModel) -> (r: bool)
    ensures
        r == key_lt(a.name@, b.name@),
{
    match keys::compare_keys(a.name.as_str(), b.name.as_str()) {
        KeyOrder::Less => true,
        _ => false,
    }
}

proof fn lemma_insert_sorted(s: Seq<LocalModel>, x: LocalModel)
    requires
        forall|i: int, j: int| 0 <= i < j < s.len() ==> name_le(s[i], s[j]),
    ensures
        ({
            let r = insert_sorted(s, x);
            &&& forall|i: int, j: int| 0 <= i < j < r.len() ==> name_le(r[i], r[j])
            &&& r.to_multiset() == s.to_multiset().insert(x)
        }),
    decreases s.len(),
{
    broadcast use vstd::seq_lib::group_to_multiset_ensures;

    if s.len() == 0 {
        assert(seq![x] =~= Seq::<LocalModel>::empty().push(x));
    } else if key_lt(x.name@, s.last().name@) {
        let p = s.drop_last();
        lemma_insert_sorted(p, x);
        let q = insert_sorted(p, x);
        let r = q.push(s.last());
        assert(s =~= p.push(s.last()));
        assert forall|i: int, j: int| 0 <= i < j < r.len() implies name_le(r[i], r[j]) by {
            if j == r.len() - 1 {
                // every element of q is x or an element of p, none greater than s.last()
                assert(q.to_multiset().count(r[i]) > 0) by {
                    assert(q.contains(r[i]));
                }
                assert(q.to_multiset() == p.to_multiset().insert(x));
                if r[i] != x {
                    assert(p.to_multiset().count(r[i]) > 0);
                    assert(p.contains(r[i]));
                    let k = choose|k: int| 0 <= k < p.len() && p[k] == r[i];
                    assert(s[k] == p[k]);
                    assert(name_le(s[k], s[s.len() - 1]));
                } else {
                    keys::lemma_key_lt_asym(x.name@, s.last().name@);
                }
            }
        }
    } else {
        let r = s.push(x);
        assert forall|i: int, j: int| 0 <= i < j < r.len() implies name_le(r[i], r[j]) by {
            if j == r.len() - 1 && i < s.len() - 1 {
                assert(name_le(s[i], s[s.len() - 1]));
                if key_lt(x.name@, s[i].name@) {
                    if key_lt(s[s.len() - 1].name@, x.name@) {
                        keys::lemma_key_lt_trans(s[s.len() - 1].name@, x.name@, s[i].name@);
                    } else if s[s.len() - 1].name@ != x.name@ {
                        keys::lemma_key_lt_total(s[s.len() - 1].name@, x.name@);
                    } else {
                    }
                }
            }
        }
    }
}

/// Sorting by name gives the models ordered by name.
pub proof fn lemma_sorted_by_name_ordered(s: Seq<LocalModel>)
    ensures
        forall|i: int, j: int|
            0 <= i < j < sorted_by_name(s).len() ==> name_le(
                #[trigger] sorted_by_name(s)[i],
                #[trigger] sorted_by_name(s)[j],
            ),
    decreases s.len(),
{
    if s.len() > 0 {
        lemma_sorted_by_name_ordered(s.drop_last());
        lemma_insert_sorted(sorted_by_name(s.drop_last()), s.last());
    }
}

/// Sorting by name keeps exactly the models it was given.
pub proof fn lemma_sorted_by_name_permutes(s: Seq<LocalModel>)
    ensures
        sorted_by_name(s).to_multiset() == s.to_multiset(),
    decreases s.len(),
{
    broadcast use vstd::seq_lib::group_to_multiset_ensures;

    if s.len() > 0 {
        lemma_sorted_by_name_permutes(s.drop_last());
        lemma_sorted_by_name_ordered(s.drop_last());
        lemma_insert_sorted(sorted_by_name(s.drop_last()), s.last());
        assert(s =~= s.drop_last().push(s.last()));
    } else {
        assert(sorted_by_name(s) =~= s);
    }
}

} // verus!
