//! Naming of models pulled from the Hugging Face Hub and of their local cache.

use vstd::prelude::*;

use crate::errors::CrossEncoderError;

verus! {

/// Path of the ONNX weights inside a model repository.
pub const MODEL_FILE: &'static str = "onnx/model.onnx";

/// Path of the tokenizer inside a model repository.
pub const TOKENIZER_FILE: &'static str = "tokenizer.json";

/// Name of the cache directory under the user's home directory.
pub const CACHE_DIR_NAME: &'static str = ".cross-encode-rs";

/// Position of the first `/` in `s`, if any.
pub open spec fn first_slash(s: Seq<char>) -> Option<int>
    decreases s.len(),
{
    if s.len() == 0 {
        None
    } else if s[0] == '/' {
        Some(0)
    } else {
        match first_slash(s.drop_first()) {
            Some(k) => Some(k + 1),
            None => None,
        }
    }
}

/// `s` with every `/` replaced by `--`.
pub open spec fn replace_slashes(s: Seq<char>) -> Seq<char>
    decreases s.len(),
{
    if s.len() == 0 {
        seq![]
    } else {
        let head = if s[0] == '/' {
            seq!['-', '-']
        } else {
            seq![s[0]]
        };
        head + replace_slashes(s.drop_first())
    }
}

/// [`first_slash`] finds the first `/`: it is a `/`, and none comes before;
/// without a result, `s` holds no `/`.
pub proof fn lemma_first_slash(s: Seq<char>)
    ensures
        first_slash(s) matches Some(k) ==> 0 <= k < s.len() && s[k] == '/' && forall|j: int|
            0 <= j < k ==> s[j] != '/',
        first_slash(s) is None ==> forall|j: int| 0 <= j < s.len() ==> s[j] != '/',
    decreases s.len(),
{
    if s.len() > 0 {
        lemma_first_slash(s.drop_first());
        if s[0] != '/' {
            assert forall|j: int| 1 <= j < s.len() implies s[j] == s.drop_first()[j - 1] by {}
        }
    }
}

proof fn lemma_replace_slashes_push(s: Seq<char>, c: char)
    ensures
        replace_slashes(s.push(c)) == replace_slashes(s) + (if c == '/' {
            seq!['-', '-']
        } else {
            seq![c]
        }),
    decreases s.len(),
{
    let tail = if c == '/' {
        seq!['-', '-']
    } else {
        seq![c]
    };
    if s.len() == 0 {
        assert(s.push(c).drop_first() =~= seq![]);
        assert(replace_slashes(s.push(c)) =~= tail + replace_slashes(seq![]));
        assert(replace_slashes(s) =~= seq![]);
        assert(tail + seq![] =~= tail);
        assert(seq![] + tail =~= tail);
    } else {
        lemma_replace_slashes_push(s.drop_first(), c);
        assert(s.push(c).drop_first() =~= s.drop_first().push(c));
        assert(s.push(c)[0] == s[0]);
        let head = if s[0] == '/' {
            seq!['-', '-']
        } else {
            seq![s[0]]
        };
        assert(replace_slashes(s.push(c)) == head + replace_slashes(s.drop_first().push(c)));
        assert(replace_slashes(s) == head + replace_slashes(s.drop_first()));
        assert(head + (replace_slashes(s.drop_first()) + tail) =~= (head + replace_slashes(s.drop_first())) + tail);
    }
}

/// Replacing slashes works piece by piece: the replacement of `a` followed by
/// `b` is that of `a` followed by that of `b`.
pub proof fn lemma_replace_slashes_concat(a: Seq<char>, b: Seq<char>)
    ensures
        replace_slashes(a + b) == replace_slashes(a) + replace_slashes(b),
    decreases b.len(),
{
    if b.len() == 0 {
        assert(a + b =~= a);
        assert(replace_slashes(b) =~= Seq::<char>::empty());
        assert(replace_slashes(a) + replace_slashes(b) =~= replace_slashes(a));
    } else {
        let c = b.last();
        let b0 = b.drop_last();
        lemma_replace_slashes_concat(a, b0);
        assert(b0.push(c) =~= b);
        assert((a + b0).push(c) =~= a + b);
        lemma_replace_slashes_push(a + b0, c);
        lemma_replace_slashes_push(b0, c);
        let tail = if c == '/' {
            seq!['-', '-']
        } else {
            seq![c]
        };
        assert(replace_slashes(a) + (replace_slashes(b0) + tail) =~= (replace_slashes(a) + replace_slashes(b0)) + tail);
    }
}

/// A cache folder name holds no `/`: each `/` of the id becomes `--` and
/// every other character stays; an id without `/` is its own folder name.
pub proof fn lemma_replace_slashes_removes_slashes(s: Seq<char>)
    ensures
        forall|i: int| 0 <= i < replace_slashes(s).len() ==> #[trigger] replace_slashes(s)[i] != '/',
        (forall|i: int| 0 <= i < s.len() ==> s[i] != '/') ==> replace_slashes(s) == s,
        replace_slashes(s).len() >= s.len(),
    decreases s.len(),
{
    if s.len() > 0 {
        let t = s.drop_first();
        lemma_replace_slashes_removes_slashes(t);
        let head = if s[0] == '/' {
            seq!['-', '-']
        } else {
            seq![s[0]]
        };
        assert(replace_slashes(s) == head + replace_slashes(t));
        assert forall|i: int| 0 <= i < replace_slashes(s).len() implies #[trigger] replace_slashes(s)[i] != '/' by {
            if i >= head.len() {
                assert(replace_slashes(s)[i] == replace_slashes(t)[i - head.len()]);
            }
        }
        if forall|i: int| 0 <= i < s.len() ==> s[i] != '/' {
            assert forall|i: int| 0 <= i < t.len() implies t[i] != '/' by {
                assert(t[i] == s[i + 1]);
            }
            assert(s =~= seq![s[0]] + t);
        }
    }
}

/// Splits a model id of the form `owner/name` at its first `/`. An id without
/// `/` is refused.
pub fn split_model_id<'a>(model_id: &'a str) -> (r: Result<(&'a str, &'a str), CrossEncoderError>)
    ensures
        first_slash(model_id@) matches Some(k) ==> (r matches Ok((owner, name)) && owner@ == model_id@.subrange(0, k)
            && name@ == model_id@.subrange(k + 1, model_id@.len() as int)),
        first_slash(model_id@) is None ==> (r matches Err(CrossEncoderError::HuggingFaceLoadError(m)) && m@
            == "Model ID should be reported as owner/repo_name"@),
        r matches Ok((owner, name)) ==> model_id@ == owner@ + seq!['/'] + name@ && forall|j: int|
            0 <= j < owner@.len() ==> #[trigger] owner@[j] != '/',
        r is Err <==> forall|j: int| 0 <= j < model_id@.len() ==> #[trigger] model_id@[j] != '/',
{
    proof {
        lemma_first_slash(model_id@);
    }
    let n = model_id.unicode_len();
    let mut i: usize = 0;
    while i < n
        invariant
            n == model_id@.len(),
            i <= n,
            forall|j: int| 0 <= j < i ==> model_id@[j] != '/',
        decreases n - i,
    {
        if model_id.get_char(i) == '/' {
            proof {
                lemma_first_slash(model_id@);
                if let Some(k) = first_slash(model_id@) {
                    assert(k == i);
                }
            }
            let owner = model_id.substring_char(0, i);
            let name = model_id.substring_char(i + 1, n);
            return Ok((owner, name));
        }
        i = i + 1;
    }
    Err(CrossEncoderError::HuggingFaceLoadError(String::from_str(
        "Model ID should be reported as owner/repo_name",
    )))
}

/// Name of a model's cache folder: its id with every `/` replaced by `--`.
pub fn cache_folder_name(model_id: &str) -> (r: String)
    ensures
        r@ == replace_slashes(model_id@),
        forall|i: int| 0 <= i < r@.len() ==> #[trigger] r@[i] != '/',
        (forall|i: int| 0 <= i < model_id@.len() ==> #[trigger] model_id@[i] != '/') ==> r@ == model_id@,
{
    proof {
        lemma_replace_slashes_removes_slashes(model_id@);
    }
    proof {
        reveal_strlit("--");
    }
    let n = model_id.unicode_len();
    let mut out = String::new();
    for i in 0..n
        invariant
            n == model_id@.len(),
            out@ == replace_slashes(model_id@.take(i as int)),
    {
        let c = model_id.get_char(i);
        proof {
            lemma_replace_slashes_push(model_id@.take(i as int), c);
            assert(model_id@.take(i + 1) =~= model_id@.take(i as int).push(c));
        }
        if c == '/' {
            let dashes = "--";
            proof {
                reveal_strlit("--");
            }
            assert(dashes@ =~= seq!['-', '-']);
            out.append(dashes);
        } else {
            let piece = model_id.substring_char(i, i + 1);
            assert(piece@ =~= seq![c]);
            out.append(piece);
        }
    }
    assert(model_id@.take(n as int) =~= model_id@);
    out
}

/// A repository file is fetched unless it is already cached, or always when
/// a fresh download is forced.
pub fn should_download(already_cached: bool, force_download: bool) -> (r: bool)
    ensures
        r == (!already_cached || force_download),
{
    !already_cached || force_download
}

} // verus!
