//! The model catalogue of a provider: where it is asked for, with which headers, and the
//! sorted model ids read from the reply; and the answer of a connection test.
use vstd::prelude::*;

use crate::ext::{json_array_item_strings, json_array_items_member, opt_text_views};
use crate::profiles::LLMProvider;
use crate::request::{header_views, push_header};
use crate::skills::{lemma_lex_total, lemma_lex_trans, lex_le, text_le};
use crate::text::{
    chars_of, concat2, decimal, ends_with_chars, has_suffix, push_str, replace_all, replace_str,
    string_of, u64_to_decimal, views,
};
use crate::zen::{strip_trailing_slashes, strip_trailing_slashes_chars};

verus! {

/// Servers that expect the `/v1` prefix in front of the catalogue path.
pub open spec fn catalogue_wants_v1(p: LLMProvider) -> bool {
    p == LLMProvider::Ollama || p == LLMProvider::OllamaCloud || p == LLMProvider::LMStudio
}

/// The base URL the catalogue path is put after: trailing slashes dropped, and `/v1` added
/// for Ollama, Ollama Cloud and LM Studio unless the URL already ends with `/v1` or with
/// `/chat/completions`.
pub open spec fn catalogue_base(p: LLMProvider, base_url: Seq<char>) -> Seq<char> {
    let t = strip_trailing_slashes(base_url);
    if catalogue_wants_v1(p) && !has_suffix(t, "/v1"@) && !has_suffix(t, "/chat/completions"@) {
        t + "/v1"@
    } else {
        t
    }
}

/// The catalogue URL: a chat-completions URL has that path replaced by `/models`, any other
/// base gets `/models` appended.
pub open spec fn catalogue_url(p: LLMProvider, base_url: Seq<char>) -> Seq<char> {
    let b = catalogue_base(p, base_url);
    if has_suffix(b, "/chat/completions"@) {
        replace_all(b, "/chat/completions"@, "/models"@)
    } else {
        b + "/models"@
    }
}

/// Ollama, Ollama Cloud and LM Studio ask for the catalogue under `/v1`: a base URL that ends
/// neither with `/v1` nor with `/chat/completions` gets `/v1/models` after its trailing
/// slashes are dropped.
pub proof fn local_servers_list_models_under_v1(p: LLMProvider, base_url: Seq<char>)
    requires
        p == LLMProvider::Ollama || p == LLMProvider::OllamaCloud || p == LLMProvider::LMStudio,
        !has_suffix(strip_trailing_slashes(base_url), "/v1"@),
        !has_suffix(strip_trailing_slashes(base_url), "/chat/completions"@),
    ensures
        catalogue_url(p, base_url) == strip_trailing_slashes(base_url) + "/v1/models"@,
{
    reveal_strlit("/v1");
    reveal_strlit("/chat/completions");
    reveal_strlit("/models");
    reveal_strlit("/v1/models");
    let t = strip_trailing_slashes(base_url);
    let b = t + "/v1"@;
    assert(b.last() == '1');
    assert(!has_suffix(b, "/chat/completions"@)) by {
        if has_suffix(b, "/chat/completions"@) {
            assert(b.subrange(b.len() - 17, b.len() as int)[16] == b.last());
        }
    }
    assert(b + "/models"@ =~= t + "/v1/models"@);
}

/// Any other provider, and any base URL already ending with `/v1`, gets `/models` appended
/// after the trailing slashes are dropped (unless the URL is a chat-completions URL).
pub proof fn other_bases_list_models_directly(p: LLMProvider, base_url: Seq<char>)
    requires
        !(p == LLMProvider::Ollama || p == LLMProvider::OllamaCloud || p == LLMProvider::LMStudio)
            || has_suffix(strip_trailing_slashes(base_url), "/v1"@),
        !has_suffix(strip_trailing_slashes(base_url), "/chat/completions"@),
    ensures
        catalogue_url(p, base_url) == strip_trailing_slashes(base_url) + "/models"@,
{
}

/// The catalogue URL of a profile.
pub fn models_url(provider: LLMProvider, base_url: &str) -> (r: String)
    ensures
        r@ == catalogue_url(provider, base_url@),
{
    let v = chars_of(base_url);
    let t = strip_trailing_slashes_chars(&v);
    let v1 = chars_of("/v1");
    let chat = chars_of("/chat/completions");
    let trimmed = string_of(&t);
    let wants = match provider {
        LLMProvider::Ollama | LLMProvider::OllamaCloud | LLMProvider::LMStudio => true,
        _ => false,
    };
    let base = if wants && !ends_with_chars(&t, &v1) && !ends_with_chars(&t, &chat) {
        concat2(trimmed.as_str(), "/v1")
    } else {
        trimmed
    };
    let bv = chars_of(base.as_str());
    if ends_with_chars(&bv, &chat) {
        replace_str(base.as_str(), "/chat/completions", "/models")
    } else {
        concat2(base.as_str(), "/models")
    }
}

/// Headers of a catalogue request: the JSON content type, the bearer token when there is a
/// key, and OpenRouter's attribution.
pub open spec fn catalogue_headers(p: LLMProvider, api_key: Seq<char>) -> Seq<(Seq<char>, Seq<char>)> {
    seq![("Content-Type"@, "application/json"@)] + (if api_key.len() > 0 {
        seq![("Authorization"@, "Bearer "@ + api_key)]
    } else {
        Seq::empty()
    }) + (if p == LLMProvider::OpenRouter {
        seq![("HTTP-Referer"@, "https://mini-ai-1c.local"@), ("X-Title"@, "Mini AI 1C Agent"@)]
    } else {
        Seq::empty()
    })
}

/// Headers of a catalogue request.
pub fn models_request_headers(provider: LLMProvider, api_key: &str) -> (r: Vec<(String, String)>)
    ensures
        header_views(r@) == catalogue_headers(provider, api_key@),
{
    let mut hs: Vec<(String, String)> = Vec::new();
    push_header(&mut hs, "Content-Type", "application/json");
    let ghost h1 = header_views(hs@);
    if !api_key.is_empty() {
        let bearer = concat2("Bearer ", api_key);
        push_header(&mut hs, "Authorization", bearer.as_str());
    }
    let ghost h2 = header_views(hs@);
    assert(h2 =~= h1 + (if api_key@.len() > 0 {
        seq![("Authorization"@, "Bearer "@ + api_key@)]
    } else {
        Seq::empty()
    }));
    match provider {
        LLMProvider::OpenRouter => {
            push_header(&mut hs, "HTTP-Referer", "https://mini-ai-1c.local");
            push_header(&mut hs, "X-Title", "Mini AI 1C Agent");
        },
        _ => {},
    }
    assert(header_views(hs@) =~= catalogue_headers(provider, api_key@));
    hs
}

/// The texts in code-point order.
pub open spec fn sorted_texts(s: Seq<Seq<char>>) -> bool {
    forall|i: int, j: int| 0 <= i < j < s.len() ==> lex_le(s[i], s[j])
}

/// The texts sorted in code-point order (the order of `String`).
pub fn sort_texts(texts: Vec<String>) -> (r: Vec<String>)
    ensures
        sorted_texts(views(r@)),
        views(r@).to_multiset() == views(texts@).to_multiset(),
{
    let ghost orig = texts@;
    let mut source = texts;
    let n = source.len();
    let mut out: Vec<String> = Vec::new();
    let mut i: usize = 0;
    assert(views(orig.subrange(0, 0)) =~= Seq::<Seq<char>>::empty());
    assert(views(out@) =~= Seq::<Seq<char>>::empty());
    while i < n
        invariant
            i <= n,
            n == orig.len(),
            source@ == orig.subrange(i as int, n as int),
            sorted_texts(views(out@)),
            views(out@).to_multiset() == views(orig.subrange(0, i as int)).to_multiset(),
        decreases n - i,
    {
        let x = source.remove(0);
        assert(x == orig[i as int]);
        let mut k: usize = 0;
        while k < out.len() && text_le(out[k].as_str(), x.as_str())
            invariant
                k <= out@.len(),
                forall|j: int| 0 <= j < k ==> lex_le(out@[j]@, x@),
            decreases out.len() - k,
        {
            k = k + 1;
        }
        proof {
            if k < out@.len() {
                assert(!lex_le(out@[k as int]@, x@));
                lemma_lex_total(out@[k as int]@, x@);
            }
        }
        let ghost before = out@;
        let ghost bv = views(before);
        out.insert(k, x);
        assert(views(out@) =~= bv.insert(k as int, x@));
        assert forall|a: int, b: int| 0 <= a < b < views(out@).len() implies lex_le(
            views(out@)[a],
            views(out@)[b],
        ) by {
            if a < k && b == k {
            } else if a == k && b > k {
                if b > k + 1 {
                    lemma_lex_trans(x@, bv[k as int], bv[b - 1]);
                }
            } else if a < k && b > k {
            } else if a > k {
            }
        }
        proof {
            vstd::seq_lib::to_multiset_insert(bv, k as int, x@);
            vstd::seq_lib::to_multiset_build(views(orig.subrange(0, i as int)), x@);
        }
        assert(views(orig.subrange(0, i + 1)) =~= views(orig.subrange(0, i as int)).push(x@));
        assert(source@ =~= orig.subrange(i + 1, n as int));
        i = i + 1;
    }
    assert(orig.subrange(0, n as int) =~= orig);
    out
}

/// The ids that are strings, in the order of the items.
pub open spec fn present_ids(items: Seq<Option<Seq<char>>>) -> Seq<Seq<char>>
    decreases items.len(),
{
    if items.len() == 0 {
        Seq::empty()
    } else {
        let r = present_ids(items.drop_last());
        match items.last() {
            Some(id) => r.push(id),
            None => r,
        }
    }
}

/// The model ids listed in a catalogue reply (`data[].id`), before sorting: none when the
/// reply has no `data` array.
pub open spec fn listed_model_ids(body: Seq<char>) -> Seq<Seq<char>> {
    match json_array_item_strings(body, "data"@, "id"@) {
        Some(items) => present_ids(items),
        None => Seq::empty(),
    }
}

/// The model ids of a catalogue reply, sorted.
pub fn model_ids_from_body(body: &str) -> (r: Vec<String>)
    ensures
        sorted_texts(views(r@)),
        views(r@).to_multiset() == listed_model_ids(body@).to_multiset(),
{
    let mut ids: Vec<String> = Vec::new();
    match json_array_items_member(body, "data", "id") {
        Some(items) => {
            let ghost ov = opt_text_views(items@);
            let mut i: usize = 0;
            assert(ov.subrange(0, 0) =~= Seq::<Option<Seq<char>>>::empty());
            assert(views(ids@) =~= Seq::<Seq<char>>::empty());
            while i < items.len()
                invariant
                    i <= items@.len(),
                    ov == opt_text_views(items@),
                    views(ids@) == present_ids(ov.subrange(0, i as int)),
                decreases items.len() - i,
            {
                assert(ov.subrange(0, i + 1).drop_last() =~= ov.subrange(0, i as int));
                assert(ov.subrange(0, i + 1).last() == ov[i as int]);
                match &items[i] {
                    Some(id) => {
                        let ghost before = views(ids@);
                        ids.push(id.clone());
                        assert(views(ids@) =~= before.push(id@));
                    },
                    None => {},
                }
                i = i + 1;
            }
            assert(ov.subrange(0, items@.len() as int) =~= ov);
        },
        None => {
            assert(views(ids@) =~= Seq::<Seq<char>>::empty());
        },
    }
    sort_texts(ids)
}

/// The answer of a connection test, from the outcome of listing the models.
pub fn connection_test_result(models: Result<Vec<String>, String>) -> (r: Result<String, String>)
    ensures
        match models {
            Ok(m) => r matches Ok(t) && t@ == "Success! Found "@ + decimal(m@.len()) + " models."@,
            Err(e) => r matches Err(t) && t@ == "Connection failed: "@ + e@,
        },
{
    match models {
        Ok(m) => {
            let mut t = "Success! Found ".to_owned();
            let count = u64_to_decimal(m.len() as u64);
            push_str(&mut t, count.as_str());
            push_str(&mut t, " models.");
            Ok(t)
        },
        Err(e) => Err(concat2("Connection failed: ", e.as_str())),
    }
}

} // verus!
