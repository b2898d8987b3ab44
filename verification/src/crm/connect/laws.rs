//! How a command line, an address and an answer of a model are read.

use crate::crm::connect::{
    bare_toml, curl_from, curl_method, decoded_from, empty_curl, hex_byte, key_end, pairs_text,
    percent_decoded, prompt_of, provider_at, query_pairs, shell_read, starts_toml, toml_in,
    toml_start, url_base, url_query, ConnectInput, CurlV,
};
use crate::provider::{text_pairs, ModelProviderInfo};
use crate::report::markup::laws::lemma_shows_itself;
use crate::strs::laws::{
    law_cut_once_at_the_first, law_pieces_are_joined_by_the_character,
    law_white_space_goes_from_the_ends,
};
use crate::strs::{find_from, has_text, is_space, occurs_at, split_on, split_once_spec, trimmed};
use vstd::prelude::*;

verus! {

// Command lines

/// Characters that neither group nor separate go to the token that is being read.
pub proof fn law_plain_characters_go_to_the_token(s: Seq<char>, w: Seq<char>)
    requires
        shell_read(s).quote is None,
        forall|i: int|
            0 <= i < w.len() ==> #[trigger] w[i] != '\'' && w[i] != '"' && !is_space(w[i]),
    ensures
        shell_read(s + w).done == shell_read(s).done,
        shell_read(s + w).cur == shell_read(s).cur + w,
        shell_read(s + w).quote is None,
    decreases w.len(),
{
    if w.len() == 0 {
        assert(s + w =~= s);
        assert(shell_read(s).cur + w =~= shell_read(s).cur);
    } else {
        let rest = w.drop_last();
        assert forall|i: int| 0 <= i < rest.len() implies #[trigger] rest[i] != '\'' && rest[i]
            != '"' && !is_space(rest[i]) by {
            assert(w[i] != '\'');
        }
        law_plain_characters_go_to_the_token(s, rest);
        assert((s + w).drop_last() =~= s + rest);
        assert((s + w).last() == w.last());
        assert(w[w.len() - 1] != '\'');
        assert((shell_read(s).cur + rest).push(w.last()) =~= shell_read(s).cur + w);
    }
}

/// What stands in quotes goes to the token as it is, white space too, and the quotes do not.
pub proof fn law_quotes_group(s: Seq<char>, w: Seq<char>, q: char)
    requires
        shell_read(s).quote is None,
        q == '\'' || q == '"',
        forall|i: int| 0 <= i < w.len() ==> #[trigger] w[i] != q,
    ensures
        ({
            let now = shell_read(s + seq![q] + w + seq![q]);
            &&& now.done == shell_read(s).done
            &&& now.cur == shell_read(s).cur + w
            &&& now.quote is None
        }),
{
    let open = s + seq![q];
    assert(open.drop_last() =~= s);
    lemma_in_quotes(open, w, q);
    let full = open + w + seq![q];
    assert(full.drop_last() =~= open + w);
}

proof fn lemma_in_quotes(s: Seq<char>, w: Seq<char>, q: char)
    requires
        shell_read(s).quote == Some(q),
        forall|i: int| 0 <= i < w.len() ==> #[trigger] w[i] != q,
    ensures
        shell_read(s + w).done == shell_read(s).done,
        shell_read(s + w).cur == shell_read(s).cur + w,
        shell_read(s + w).quote == Some(q),
    decreases w.len(),
{
    if w.len() == 0 {
        assert(s + w =~= s);
        assert(shell_read(s).cur + w =~= shell_read(s).cur);
    } else {
        let rest = w.drop_last();
        assert forall|i: int| 0 <= i < rest.len() implies #[trigger] rest[i] != q by {
            assert(w[i] != q);
        }
        lemma_in_quotes(s, rest, q);
        assert((s + w).drop_last() =~= s + rest);
        assert((s + w).last() == w.last());
        assert(w[w.len() - 1] != q);
        assert((shell_read(s).cur + rest).push(w.last()) =~= shell_read(s).cur + w);
    }
}

/// White space ends a token, where one was begun.
pub proof fn law_white_space_separates(s: Seq<char>, c: char)
    requires
        shell_read(s).quote is None,
        is_space(c),
    ensures
        ({
            let before = shell_read(s);
            let now = shell_read(s + seq![c]);
            &&& now.cur.len() == 0 && now.quote is None
            &&& before.cur.len() > 0 ==> now.done == before.done.push(before.cur)
            &&& before.cur.len() == 0 ==> now.done == before.done
        }),
{
    assert((s + seq![c]).drop_last() =~= s);
}

// Addresses

/// The byte of two hexadecimal digits, in small or capital letters, is sixteen times the first and
/// the second.
pub proof fn law_two_digits_are_a_byte(a: u8, b: u8)
    requires
        a < 10 && b < 6,
    ensures
        hex_byte((48 + a) as u8, (48 + b) as u8) == Some((a * 16 + b) as u8),
        hex_byte((48 + a) as u8, (97 + b) as u8) == Some((a * 16 + 10 + b) as u8),
        hex_byte((48 + a) as u8, (65 + b) as u8) == Some((a * 16 + 10 + b) as u8),
        hex_byte((97 + b) as u8, (48 + a) as u8) == Some(((10 + b) * 16 + a) as u8),
        hex_byte((65 + b) as u8, (48 + a) as u8) == Some(((10 + b) * 16 + a) as u8),
{
}

/// A percent sign and two digits stand for a byte, a plus sign for a space, and every other byte
/// for itself.
pub proof fn law_bytes_are_decoded(b: Seq<u8>, i: int)
    requires
        0 <= i < b.len(),
    ensures
        b[i] != 37 && b[i] != 43 ==> decoded_from(b, i) == seq![b[i]] + decoded_from(b, i + 1),
        b[i] == 43 ==> decoded_from(b, i) == seq![32u8] + decoded_from(b, i + 1),
        b[i] == 37 && i + 2 < b.len() ==> (hex_byte(b[i + 1], b[i + 2]) matches Some(x)
            ==> decoded_from(b, i) == seq![x] + decoded_from(b, i + 3)),
        b[i] == 37 && i + 2 >= b.len() ==> decoded_from(b, i) == seq![37u8] + decoded_from(
            b,
            i + 1,
        ),
{
}

/// An address without a question mark has no query. Else what is ahead of the first one is the
/// address, and what is behind it the query.
pub proof fn law_query_is_behind_the_question_mark(base: Seq<char>, q: Seq<char>)
    requires
        forall|i: int| 0 <= i < base.len() ==> #[trigger] base[i] != '?',
    ensures
        url_base(base) == base && url_query(base).len() == 0,
        url_base(base + seq!['?'] + q) == base,
        url_query(base + seq!['?'] + q) == query_pairs(
            split_on(q, '&'),
            split_on(q, '&').len() as int,
        ),
{
    law_cut_once_at_the_first(base, q, '?');
}

/// A piece of a query is a name and a value around its first equals sign, both decoded.
pub proof fn law_pieces_are_pairs(name: Seq<char>, value: Seq<char>)
    requires
        forall|i: int|
            0 <= i < name.len() ==> #[trigger] name[i] != '=' && name[i] != '&',
        forall|i: int| 0 <= i < value.len() ==> #[trigger] value[i] != '&',
    ensures
        query_pairs(
            split_on(name + seq!['='] + value, '&'),
            split_on(name + seq!['='] + value, '&').len() as int,
        ) == seq![(percent_decoded(name), percent_decoded(value))],
{
    let p = name + seq!['='] + value;
    assert forall|i: int| 0 <= i < p.len() implies #[trigger] p[i] != '&' by {
        if i < name.len() {
            assert(p[i] == name[i]);
        } else if i > name.len() {
            assert(p[i] == value[i - name.len() - 1]);
        }
    }
    law_pieces_are_joined_by_the_character(p, p, '&');
    law_cut_once_at_the_first(name, value, '=');
    reveal_with_fuel(query_pairs, 2);
    assert(query_pairs(seq![p], 1) =~= seq![(percent_decoded(name), percent_decoded(value))]);
}

/// Without a method of its own a command posts where it has a body, and gets where it has none.
pub proof fn law_method_goes_with_the_body(c: CurlV)
    ensures
        c.method.len() > 0 ==> curl_method(c) == c.method,
        c.method.len() == 0 && c.body is Some ==> curl_method(c) == "POST"@,
        c.method.len() == 0 && c.body is None ==> curl_method(c) == "GET"@,
{
}

// Commands

/// A command is read by its flags: the method behind `-X`, a header behind `-H` with its name and
/// its value apart, the body behind `-d`, and the address as it is.
pub proof fn law_command_is_read_by_its_flags(
    url: Seq<char>,
    method: Seq<char>,
    k: Seq<char>,
    v: Seq<char>,
    body: Seq<char>,
)
    requires
        forall|i: int| 0 <= i < k.len() ==> #[trigger] k[i] != ':',
    ensures
        ({
            let address = "http"@ + url;
            let toks = seq![
                "curl"@,
                "-X"@,
                method,
                "-H"@,
                k + seq![':'] + v,
                "-d"@,
                body,
                address,
            ];
            let c = curl_from(toks, 0, empty_curl());
            &&& c.url == address
            &&& c.method == method
            &&& c.headers == seq![(trimmed(k), trimmed(v))]
            &&& c.body == Some(body)
        }),
{
    reveal_strlit("curl");
    reveal_strlit("-X");
    reveal_strlit("--request");
    reveal_strlit("-H");
    reveal_strlit("--header");
    reveal_strlit("-d");
    reveal_strlit("--data");
    reveal_strlit("--data-raw");
    reveal_strlit("http");
    let address = "http"@ + url;
    let toks = seq!["curl"@, "-X"@, method, "-H"@, k + seq![':'] + v, "-d"@, body, address];
    assert("curl"@.len() == 4 && "-X"@.len() == 2 && "--request"@.len() == 9 && "-H"@.len() == 2
        && "--header"@.len() == 8 && "-d"@.len() == 2 && "--data"@.len() == 6 && "--data-raw"@.len()
        == 10 && "http"@.len() == 4);
    assert("curl"@[0] == 'c' && "-X"@[1] == 'X' && "-H"@[1] == 'H' && "-d"@[1] == 'd');
    assert("http"@[0] == 'h' && "--request"@[0] == '-' && "--header"@[0] == '-' && "--data"@[0] == '-'
        && "--data-raw"@[0] == '-' && "-X"@[0] == '-' && "-H"@[0] == '-' && "-d"@[0] == '-');
    assert(address[0] == 'h');
    assert(address.subrange(0, 4) =~= "http"@);
    assert("curl"@ != "http"@);
    assert(!occurs_at("curl"@, "http"@, 0)) by {
        if occurs_at("curl"@, "http"@, 0) {
            assert("curl"@.subrange(0, 4)[0] == 'c');
        }
    }
    law_cut_once_at_the_first(k, v, ':');
    reveal_with_fuel(curl_from, 6);
    let none = Seq::<(Seq<char>, Seq<char>)>::empty();
    assert(none.push((trimmed(k), trimmed(v))) =~= seq![(trimmed(k), trimmed(v))]);
}

/// The longer names of the flags mean the same.
pub proof fn law_flags_have_two_names(toks: Seq<Seq<char>>, c: CurlV, i: int)
    requires
        0 <= i < toks.len(),
    ensures
        ({
            let got = curl_from(toks, i, c);
            &&& toks[i] == "--request"@ ==> got == curl_from(toks.update(i, "-X"@), i, c)
            &&& toks[i] == "--header"@ ==> got == curl_from(toks.update(i, "-H"@), i, c)
            &&& toks[i] == "--data"@ || toks[i] == "--data-raw"@ ==> got == curl_from(
                toks.update(i, "-d"@),
                i,
                c,
            )
        }),
{
    reveal_strlit("-X");
    reveal_strlit("--request");
    reveal_strlit("-H");
    reveal_strlit("--header");
    reveal_strlit("-d");
    reveal_strlit("--data");
    reveal_strlit("--data-raw");
    assert("-X"@.len() == 2 && "--request"@.len() == 9 && "-H"@.len() == 2 && "--header"@.len() == 8
        && "-d"@.len() == 2 && "--data"@.len() == 6 && "--data-raw"@.len() == 10);
    assert("-X"@[1] == 'X' && "-H"@[1] == 'H' && "-d"@[1] == 'd');
    lemma_flag_same(toks, toks.update(i, "-X"@), i, c);
    lemma_flag_same(toks, toks.update(i, "-H"@), i, c);
    lemma_flag_same(toks, toks.update(i, "-d"@), i, c);
}

/// The command with the flag at `i` taken, for each kind of flag.
spec fn with_flag(toks: Seq<Seq<char>>, i: int, c: CurlV) -> (CurlV, CurlV, CurlV) {
    let next = if i + 1 < toks.len() {
        Some(toks[i + 1])
    } else {
        None
    };
    (
        CurlV {
            method: match next {
                Some(m) => m,
                None => Seq::empty(),
            },
            ..c
        },
        match next {
            Some(h) => match split_once_spec(h, ':') {
                Some((k, v)) => CurlV { headers: c.headers.push((trimmed(k), trimmed(v))), ..c },
                None => c,
            },
            None => c,
        },
        CurlV { body: next, ..c },
    )
}

/// What is behind a flag and its token is read alike where it is alike.
proof fn lemma_flag_same(a: Seq<Seq<char>>, b: Seq<Seq<char>>, i: int, c: CurlV)
    requires
        0 <= i < a.len(),
        a.len() == b.len(),
        forall|k: int| i < k < a.len() ==> #[trigger] a[k] == b[k],
    ensures
        with_flag(a, i, c) == with_flag(b, i, c),
        curl_from(a, i + 2, with_flag(a, i, c).0) == curl_from(b, i + 2, with_flag(a, i, c).0),
        curl_from(a, i + 2, with_flag(a, i, c).1) == curl_from(b, i + 2, with_flag(a, i, c).1),
        curl_from(a, i + 2, with_flag(a, i, c).2) == curl_from(b, i + 2, with_flag(a, i, c).2),
    decreases a.len() + 2 - i, 0int,
{
    if i + 1 < a.len() {
        assert(a[i + 1] == b[i + 1]);
    }
    lemma_curl_same(a, b, i + 2, with_flag(a, i, c).0);
    lemma_curl_same(a, b, i + 2, with_flag(a, i, c).1);
    lemma_curl_same(a, b, i + 2, with_flag(a, i, c).2);
}

proof fn lemma_curl_same(a: Seq<Seq<char>>, b: Seq<Seq<char>>, i: int, c: CurlV)
    requires
        0 <= i,
        a.len() == b.len(),
        forall|k: int| i <= k < a.len() ==> #[trigger] a[k] == b[k],
    ensures
        curl_from(a, i, c) == curl_from(b, i, c),
    decreases a.len() + 2 - i, 1int,
{
    if i < a.len() {
        assert(a[i] == b[i]);
        lemma_flag_same(a, b, i, c);
        lemma_curl_same(a, b, i + 1, CurlV { url: a[i], ..c });
        lemma_curl_same(a, b, i + 1, c);
    }
}

// Answers

/// What stands in a fence is taken, with or without the name of the language, whatever white space
/// is around the answer.
pub proof fn law_fenced_answer_is_taken(a: Seq<char>, inner: Seq<char>, b: Seq<char>)
    requires
        forall|i: int| 0 <= i < inner.len() ==> #[trigger] inner[i] != '`',
        forall|i: int| 0 <= i < a.len() ==> is_space(#[trigger] a[i]),
        forall|i: int| 0 <= i < b.len() ==> is_space(#[trigger] b[i]),
    ensures
        toml_in(a + ("```toml"@ + inner + "```"@) + b) == trimmed(inner),
        !occurs_at(inner, "toml"@, 0) ==> toml_in(a + ("```"@ + inner + "```"@) + b) == trimmed(
            inner,
        ),
{
    reveal_strlit("```toml");
    reveal_strlit("```");
    reveal_strlit("toml");
    let fence = "```"@;
    let t = "```toml"@ + inner + fence;
    let u = fence + inner + fence;
    assert(fence.len() == 3 && fence[0] == '`' && fence[2] == '`');
    assert(t[0] == '`' && t.last() == '`' && u[0] == '`' && u.last() == '`');
    law_white_space_goes_from_the_ends(a, t, b);
    law_white_space_goes_from_the_ends(a, u, b);
    assert(t.subrange(0, 3) =~= fence);
    assert(u.subrange(0, 3) =~= fence);
    assert(find_from(t, fence, 0) == Some(0int));
    assert(find_from(u, fence, 0) == Some(0int));
    let rest = inner + fence;
    assert(t.skip(3) =~= "toml"@ + rest);
    assert(u.skip(3) =~= rest);
    assert(("toml"@ + rest).subrange(0, 4) =~= "toml"@);
    assert(("toml"@ + rest).skip(4) =~= rest);
    lemma_fence_ends(inner, 0);
    assert(rest.take(inner.len() as int) =~= inner);
    if !occurs_at(inner, "toml"@, 0) {
        assert(!occurs_at(rest, "toml"@, 0)) by {
            if occurs_at(rest, "toml"@, 0) {
                let head = rest.subrange(0, 4);
                assert(head == "toml"@);
                if inner.len() >= 4 {
                    assert(inner.subrange(0, 4) =~= head);
                } else {
                    assert(head[inner.len() as int] == '`');
                    assert("toml"@[0] == 't' && "toml"@[1] == 'o' && "toml"@[2] == 'm' && "toml"@[3]
                        == 'l');
                }
            }
        }
    }
}

proof fn lemma_fence_ends(inner: Seq<char>, from: int)
    requires
        0 <= from <= inner.len(),
        forall|i: int| 0 <= i < inner.len() ==> #[trigger] inner[i] != '`',
    ensures
        find_from(inner + "```"@, "```"@, from) == Some(inner.len() as int),
    decreases inner.len() - from,
{
    reveal_strlit("```");
    let t = inner + "```"@;
    if from < inner.len() {
        if occurs_at(t, "```"@, from) {
            assert(t.subrange(from, from + 3)[0] == t[from]);
            assert(t[from] == inner[from]);
        }
        lemma_fence_ends(inner, from + 1);
    } else {
        assert(t.subrange(from, from + 3) =~= "```"@);
    }
}

/// The provider that is used is the first with its id.
pub proof fn law_provider_is_the_first_of_its_id(
    providers: Seq<(String, ModelProviderInfo)>,
    id: Seq<char>,
)
    ensures
        (forall|i: int| 0 <= i < providers.len() ==> (#[trigger] providers[i]).0@ != id)
            ==> provider_at(providers, id) is None,
        forall|k: int|
            0 <= k < providers.len() && (#[trigger] providers[k]).0@ == id && (forall|i: int|
                0 <= i < k ==> (#[trigger] providers[i]).0@ != id) ==> provider_at(providers, id)
                == Some(providers[k].1@),
    decreases providers.len(),
{
    if providers.len() > 0 {
        let rest = providers.drop_first();
        law_provider_is_the_first_of_its_id(rest, id);
        if providers[0].0@ != id {
            assert forall|k: int|
                0 <= k < providers.len() && (#[trigger] providers[k]).0@ == id && (forall|i: int|
                    0 <= i < k ==> (#[trigger] providers[i]).0@ != id) implies provider_at(
                providers,
                id,
            ) == Some(providers[k].1@) by {
                assert(rest[k - 1] == providers[k]);
                assert forall|i: int| 0 <= i < k - 1 implies (#[trigger] rest[i]).0@ != id by {
                    assert(rest[i] == providers[i + 1]);
                }
            }
            if forall|i: int| 0 <= i < providers.len() ==> (#[trigger] providers[i]).0@ != id {
                assert forall|i: int| 0 <= i < rest.len() implies (#[trigger] rest[i]).0@ != id by {
                    assert(rest[i] == providers[i + 1]);
                }
            }
        }
    }
}

/// A model is asked with the name, the address and the method as they are, with the sample behind
/// them, and at last with what was wrong before.
pub proof fn law_model_is_asked_with_the_endpoint(
    i: ConnectInput,
    sample: Seq<char>,
    feedback: Seq<char>,
)
    ensures
        has_text(
            prompt_of(i, sample, feedback),
            "CRM name: "@ + i.name@ + "\nEndpoint URL (use verbatim): "@ + i.url@
                + "\nHTTP method: "@ + i.method@ + "\n"@,
        ),
        ("\n\nOne sample response from this endpoint:\n"@ + sample + "\n\n"@
            + feedback).is_suffix_of(prompt_of(i, sample, feedback)),
        i.body matches Some(b) ==> has_text(
            prompt_of(i, sample, feedback),
            "Request body (use verbatim as request.body): "@ + b@ + "\n"@,
        ),
{
    let all = prompt_of(i, sample, feedback);
    let none = Seq::<char>::empty();
    let head = "CRM name: "@ + i.name@ + "\nEndpoint URL (use verbatim): "@ + i.url@
        + "\nHTTP method: "@ + i.method@ + "\n"@;
    let body = match i.body {
        Some(b) => "Request body (use verbatim as request.body): "@ + b@ + "\n"@,
        None => Seq::empty(),
    };
    let end = "\n\nOne sample response from this endpoint:\n"@ + sample + "\n\n"@ + feedback;
    let pairs = "Headers (use verbatim under [request.headers]):\n"@ + pairs_text(
        text_pairs(i.headers@),
    ) + "\nQuery params (use verbatim under [request.query]; secret:/env: refs stay as-is):\n"@
        + pairs_text(text_pairs(i.query@));
    assert(all =~= head + body + pairs + end);
    assert(all =~= none + head + (body + pairs + end));
    lemma_shows_itself(none, head, body + pairs + end);
    assert(all =~= head + body + (pairs + end));
    lemma_shows_itself(head, body, pairs + end);
    assert(end =~= all.subrange(all.len() - end.len(), all.len() as int));
}

// Answers without a fence

/// A description without a fence starts at the first place where one can start, and goes on to the
/// end.
pub proof fn law_bare_answer_starts_at_its_first_key(t: Seq<char>, from: int)
    requires
        0 <= from,
    ensures
        toml_start(t, from) matches Some(i) ==> from <= i < t.len() && starts_toml(t, i) && forall|k: int|
            from <= k < i ==> !starts_toml(t, k),
        toml_start(t, from) is None ==> forall|k: int| from <= k < t.len() ==> !starts_toml(t, k),
        toml_start(t, 0) matches Some(i) ==> bare_toml(t) == trimmed(t.skip(i)),
    decreases t.len() - from,
{
    if from < t.len() && !starts_toml(t, from) {
        law_bare_answer_starts_at_its_first_key(t, from + 1);
    }
}

/// Whether a text is a plain key.
pub open spec fn is_plain_key(key: Seq<char>) -> bool {
    &&& key.len() > 0
    &&& forall|i: int|
        0 <= i < key.len() ==> 'a' <= #[trigger] key[i] <= 'z' || 'A' <= key[i] <= 'Z' || '0'
            <= key[i] <= '9' || key[i] == '_' || key[i] == '-' || key[i] == '.'
}

/// A plain key with an equals sign behind it starts a description, and so does a plain key in
/// brackets.
pub proof fn law_keys_and_tables_start_a_description(key: Seq<char>, rest: Seq<char>)
    requires
        is_plain_key(key),
    ensures
        starts_toml(key + seq!['='] + rest, 0),
        starts_toml(seq!['['] + key + seq![']'] + rest, 0),
        toml_start(key + seq!['='] + rest, 0) == Some(0int),
        toml_start(seq!['['] + key + seq![']'] + rest, 0) == Some(0int),
{
    let none = Seq::<char>::empty();
    let a = key + seq!['='] + rest;
    lemma_key_ends(none, key, seq!['='] + rest, 0);
    assert(none + key + (seq!['='] + rest) =~= a);
    assert(a[0] == key[0]);
    assert(a[key.len() as int] == '=');
    let b = seq!['['] + key + seq![']'] + rest;
    lemma_key_ends(seq!['['], key, seq![']'] + rest, 0);
    assert(seq!['['] + key + (seq![']'] + rest) =~= b);
    assert(b[0] == '[' && b[1] == key[0]);
    assert(b[1 + key.len() as int] == ']');
}

proof fn lemma_key_ends(ahead: Seq<char>, key: Seq<char>, behind: Seq<char>, i: int)
    requires
        is_plain_key(key),
        0 <= i <= key.len(),
        behind.len() > 0,
        behind[0] == '=' || behind[0] == ']',
    ensures
        key_end(ahead + key + behind, ahead.len() + i, None) == ahead.len() + key.len(),
    decreases key.len() - i,
{
    let t = ahead + key + behind;
    if i < key.len() {
        assert(t[ahead.len() + i] == key[i]);
        lemma_key_ends(ahead, key, behind, i + 1);
    } else {
        assert(t[ahead.len() + i] == behind[0]);
    }
}

} // verus!
