//! Arguments of one function call: the configured arguments with the request
//! id substituted for its placeholder, every value as text.
use vstd::prelude::*;
use crate::config::{ArgValue, ArgValueView};
use crate::strmap::{StrMap, map_of, last_entry_for, lemma_map_of, keys_unique, lemma_unique_entry};
use crate::text::{decimal, decimal_text, replace_all, replace_text, text_contains, contains_text, lemma_replace_absent};

verus! {

/// The placeholder that stands for the request id.
pub open spec fn placeholder() -> Seq<char> {
    "${REQUEST_ID}"@
}

/// `s` with the request id written in for every placeholder.
pub open spec fn substitute(s: Seq<char>, id: nat) -> Seq<char> {
    replace_all(s, placeholder(), decimal(id))
}

/// The text sent for an argument value: a string with the request id
/// substituted, a boolean as `true` or `false`, any other value as its JSON text.
pub open spec fn value_text(v: ArgValueView, id: nat) -> Seq<char> {
    match v {
        ArgValueView::Text(s) => substitute(s, id),
        ArgValueView::Bool(b) => if b {
            "true"@
        } else {
            "false"@
        },
        ArgValueView::Other(t) => t,
        ArgValueView::Tagged => Seq::empty(),
    }
}

/// No value is a tagged value, which has no JSON form.
pub open spec fn no_tagged(m: Map<Seq<char>, ArgValue>) -> bool {
    forall|k: Seq<char>| #[trigger] m.contains_key(k) ==> !(m[k] is Tagged)
}

fn substitute_text(s: &String, id_text: &str, Ghost(id): Ghost<nat>) -> (r: String)
    requires
        id_text@ == decimal(id),
    ensures
        r@ == substitute(s@, id),
{
    proof {
        reveal_strlit("${REQUEST_ID}");
    }
    if text_contains(s.as_str(), "${REQUEST_ID}") {
        replace_text(s.as_str(), "${REQUEST_ID}", id_text)
    } else {
        proof {
            lemma_replace_absent(s@, placeholder(), decimal(id));
        }
        s.clone()
    }
}

fn value_to_text(v: &ArgValue, id_text: &str, Ghost(id): Ghost<nat>) -> (r: String)
    requires
        id_text@ == decimal(id),
        !(v is Tagged),
    ensures
        r@ == value_text(v@, id),
{
    match v {
        ArgValue::Text(s) => substitute_text(s, id_text, Ghost(id)),
        ArgValue::Bool(b) => if *b {
            "true".to_owned()
        } else {
            "false".to_owned()
        },
        ArgValue::Other(t) => t.clone(),
        ArgValue::Tagged => String::new(),
    }
}

/// `out` holds the call arguments made from `src` for request id `id`: every
/// key of `src`, with the id substituted, is a key of `out`; every key of `out`
/// comes so from a key of `src` whose value's text it holds; and a key that no
/// other key becomes after substitution holds its own value's text.
pub open spec fn prepared(src: Map<Seq<char>, ArgValue>, out: Map<Seq<char>, String>, id: nat) -> bool {
    &&& forall|k: Seq<char>| #[trigger] src.contains_key(k) ==> out.contains_key(substitute(k, id))
    &&& forall|rk: Seq<char>|
        #[trigger] out.contains_key(rk) ==> exists|k: Seq<char>|
            #![trigger src[k]]
            src.contains_key(k) && substitute(k, id) == rk && out[rk]@ == value_text(src[k]@, id)
    &&& forall|k: Seq<char>|
        #![trigger src.contains_key(k)]
        src.contains_key(k) && (forall|k2: Seq<char>|
            #![trigger src.contains_key(k2)]
            src.contains_key(k2) && substitute(k2, id) == substitute(k, id) ==> k2 == k)
            ==> out[substitute(k, id)]@ == value_text(src[k]@, id)
}

/// The arguments of one call with request id `request_id`, and that id.
/// Each key and each string value has every `${REQUEST_ID}` replaced by the
/// id; booleans become `true`/`false`, other values their JSON text. When two
/// keys become the same key, one of their values is kept.
pub fn prepare_once_call_arg(src_arg: &StrMap<ArgValue>, request_id: usize) -> (r: (
    StrMap<String>,
    usize,
))
    requires
        no_tagged(src_arg@),
    ensures
        r.1 == request_id,
        prepared(src_arg@, r.0@, request_id as nat),
{
    let ghost id = request_id as nat;
    let id_text = decimal_text(request_id as u64);
    let ghost es = src_arg.entries();
    let n = src_arg.len();
    let mut out: StrMap<String> = StrMap::new();
    proof {
        lemma_map_of(es);
        src_arg.lemma_view();
    }
    let mut i: usize = 0;
    while i < n
        invariant
            n == es.len(),
            es == src_arg.entries(),
            src_arg@ == map_of(es),
            no_tagged(src_arg@),
            keys_unique(es),
            id_text@ == decimal(id),
            id == request_id as nat,
            i <= n,
            forall|j: int| 0 <= j < i ==> out@.contains_key(substitute(#[trigger] es[j].0@, id)),
            forall|rk: Seq<char>|
                #[trigger] out@.contains_key(rk) ==> exists|j: int|
                    0 <= j < i && substitute(#[trigger] es[j].0@, id) == rk && out@[rk]@
                        == value_text(es[j].1@, id) && forall|j2: int|
                        j < j2 < i ==> substitute(#[trigger] es[j2].0@, id) != rk,
        decreases n - i,
    {
        proof {
            lemma_unique_entry(es, i as int);
        }
        let key = substitute_text(src_arg.key_at(i), id_text.as_str(), Ghost(id));
        let val = value_to_text(src_arg.value_at(i), id_text.as_str(), Ghost(id));
        let ghost before = out@;
        out.insert(key, val);
        proof {
            let kk = substitute(es[i as int].0@, id);
            assert(kk == key@);
            assert forall|rk: Seq<char>| #[trigger] out@.contains_key(rk) implies exists|j: int|
                0 <= j < i + 1 && substitute(#[trigger] es[j].0@, id) == rk && out@[rk]@
                    == value_text(es[j].1@, id) && forall|j2: int|
                    j < j2 < i + 1 ==> substitute(#[trigger] es[j2].0@, id) != rk by {
                if rk == kk {
                    assert(substitute(es[i as int].0@, id) == rk);
                } else {
                    assert(before.contains_key(rk));
                    let j = choose|j: int|
                        0 <= j < i && substitute(#[trigger] es[j].0@, id) == rk && before[rk]@
                            == value_text(es[j].1@, id) && forall|j2: int|
                            j < j2 < i ==> substitute(#[trigger] es[j2].0@, id) != rk;
                    assert(forall|j2: int|
                        j < j2 < i + 1 ==> substitute(#[trigger] es[j2].0@, id) != rk);
                }
            }
        }
        i = i + 1;
    }
    proof {
        lemma_map_of(es);
        assert forall|rk: Seq<char>| #[trigger] out@.contains_key(rk) implies exists|k: Seq<char>|
            #![trigger src_arg@[k]]
            src_arg@.contains_key(k) && substitute(k, id) == rk && out@[rk]@ == value_text(
                src_arg@[k]@,
                id,
            ) by {
            let j = choose|j: int|
                0 <= j < n && substitute(#[trigger] es[j].0@, id) == rk && out@[rk]@ == value_text(
                    es[j].1@,
                    id,
                ) && forall|j2: int| j < j2 < n ==> substitute(#[trigger] es[j2].0@, id) != rk;
            let k = es[j].0@;
            assert forall|j2: int| j < j2 < es.len() implies es[j2].0@ != k by {
                assert(substitute(es[j2].0@, id) != rk);
            }
            assert(last_entry_for(es, k, j));
            assert(src_arg@.contains_key(k));
            assert(src_arg@[k] == es[j].1);
        }
        assert forall|k: Seq<char>| #[trigger] src_arg@.contains_key(k) implies out@.contains_key(
            substitute(k, id),
        ) by {
            let j = choose|j: int| 0 <= j < es.len() && es[j].0@ == k;
            assert(out@.contains_key(substitute(es[j].0@, id)));
        }
        assert forall|k: Seq<char>|
            #![trigger src_arg@.contains_key(k)]
            src_arg@.contains_key(k) && (forall|k2: Seq<char>|
                #![trigger src_arg@.contains_key(k2)]
                src_arg@.contains_key(k2) && substitute(k2, id) == substitute(k, id) ==> k2
                    == k) implies out@[substitute(k, id)]@ == value_text(src_arg@[k]@, id) by {
            let rk = substitute(k, id);
            assert(out@.contains_key(rk));
            let k2 = choose|k2: Seq<char>|
                #![trigger src_arg@[k2]]
                src_arg@.contains_key(k2) && substitute(k2, id) == rk && out@[rk]@ == value_text(
                    src_arg@[k2]@,
                    id,
                );
            assert(src_arg@.contains_key(k2));
        }
    }
    (out, request_id)
}

/// Without any placeholder in the keys, the call arguments have exactly the
/// configured keys, each with its value's text; a string value without a
/// placeholder is sent as it is.
pub proof fn lemma_without_placeholder(
    src: Map<Seq<char>, ArgValue>,
    out: Map<Seq<char>, String>,
    id: nat,
)
    requires
        prepared(src, out, id),
        forall|k: Seq<char>| #[trigger] src.contains_key(k) ==> !contains_text(k, placeholder()),
    ensures
        out.dom() == src.dom(),
        forall|k: Seq<char>| #[trigger] src.contains_key(k) ==> out[k]@ == value_text(src[k]@, id),
        forall|k: Seq<char>|
            #[trigger] src.contains_key(k) ==> match src[k]@ {
                ArgValueView::Text(t) => !contains_text(t, placeholder()) ==> out[k]@ == t,
                _ => true,
            },
{
    assert forall|k: Seq<char>| #[trigger] src.contains_key(k) implies substitute(k, id) == k by {
        lemma_replace_absent(k, placeholder(), decimal(id));
    }
    assert forall|k: Seq<char>| #[trigger] src.contains_key(k) implies out[k]@ == value_text(
        src[k]@,
        id,
    ) by {
        assert(substitute(k, id) == k);
        assert forall|k2: Seq<char>|
            #![trigger src.contains_key(k2)]
            src.contains_key(k2) && substitute(k2, id) == substitute(k, id) implies k2 == k by {
            assert(substitute(k2, id) == k2);
        }
    }
    assert forall|rk: Seq<char>| out.contains_key(rk) <==> src.contains_key(rk) by {
        if out.contains_key(rk) {
            let k = choose|k: Seq<char>|
                #![trigger src[k]]
                src.contains_key(k) && substitute(k, id) == rk && out[rk]@ == value_text(src[k]@, id);
            assert(substitute(k, id) == k);
        }
        if src.contains_key(rk) {
            assert(substitute(rk, id) == rk);
        }
    }
    assert(out.dom() =~= src.dom());
    assert forall|k: Seq<char>| #[trigger] src.contains_key(k) implies match src[k]@ {
        ArgValueView::Text(t) => !contains_text(t, placeholder()) ==> out[k]@ == t,
        _ => true,
    } by {
        match src[k]@ {
            ArgValueView::Text(t) => {
                if !contains_text(t, placeholder()) {
                    lemma_replace_absent(t, placeholder(), decimal(id));
                }
            },
            _ => {},
        }
    }
}

/// What each configured value is sent as, when no other key becomes the same
/// key after substitution: a value that is neither a string nor a boolean goes
/// as its JSON text, unchanged (a placeholder inside it stays); a boolean as
/// `true` or `false`; a string with the request id written in for every
/// placeholder.
pub proof fn lemma_value_sent_as(
    src: Map<Seq<char>, ArgValue>,
    out: Map<Seq<char>, String>,
    id: nat,
    k: Seq<char>,
)
    requires
        prepared(src, out, id),
        src.contains_key(k),
        forall|k2: Seq<char>|
            #![trigger src.contains_key(k2)]
            src.contains_key(k2) && substitute(k2, id) == substitute(k, id) ==> k2 == k,
    ensures
        out.contains_key(substitute(k, id)),
        src[k]@ matches ArgValueView::Other(t) ==> out[substitute(k, id)]@ == t,
        src[k]@ == ArgValueView::Bool(true) ==> out[substitute(k, id)]@ == "true"@,
        src[k]@ == ArgValueView::Bool(false) ==> out[substitute(k, id)]@ == "false"@,
        src[k]@ matches ArgValueView::Text(t) ==> out[substitute(k, id)]@ == replace_all(
            t,
            "${REQUEST_ID}"@,
            decimal(id),
        ),
{
}

/// A text that is just the placeholder becomes the request id.
pub proof fn lemma_placeholder_alone(id: nat)
    ensures
        substitute(placeholder(), id) == decimal(id),
{
    reveal_strlit("${REQUEST_ID}");
    let p = placeholder();
    assert(p.len() > 0);
    assert(p.subrange(0, p.len() as int) =~= p);
    assert(p.skip(p.len() as int) =~= Seq::<char>::empty());
    assert(replace_all(Seq::<char>::empty(), p, decimal(id)) == Seq::<char>::empty());
    assert(decimal(id) + Seq::<char>::empty() =~= decimal(id));
}

} // verus!
