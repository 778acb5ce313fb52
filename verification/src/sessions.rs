//! Titles of chat sessions.

use crate::text::{char_is_white_space, chars_of, is_white_space, push_char, skip_leading};
use vstd::prelude::*;

verus! {

/// The first word of a text that does not begin with white space: what
/// stands before its first white space.
pub open spec fn first_word(s: Seq<char>) -> Seq<char>
    decreases s.len(),
{
    if s.len() == 0 || is_white_space(s[0]) {
        seq![]
    } else {
        seq![s[0]] + first_word(s.drop_first())
    }
}

/// The first `limit` words of a text, a word being a run of characters
/// other than white space.
pub open spec fn words_of(s: Seq<char>, limit: nat) -> Seq<Seq<char>>
    decreases limit,
{
    let rest = skip_leading(s);
    if limit == 0 || rest.len() == 0 {
        seq![]
    } else {
        seq![first_word(rest)] + words_of(
            rest.skip(first_word(rest).len() as int),
            (limit - 1) as nat,
        )
    }
}

/// The words with one space between each two.
pub open spec fn spaced(words: Seq<Seq<char>>) -> Seq<char>
    decreases words.len(),
{
    if words.len() == 0 {
        seq![]
    } else if words.len() == 1 {
        words[0]
    } else {
        words[0] + seq![' '] + spaced(words.drop_first())
    }
}

/// The title of a session: the first three words of what the user wrote,
/// or `New Chat` where that is nothing.
pub open spec fn title_of(input: Seq<char>) -> Seq<char> {
    if words_of(input, 3).len() == 0 {
        "New Chat"@
    } else {
        spaced(words_of(input, 3))
    }
}

/// The first word is no longer than the text.
proof fn lemma_first_word_len(s: Seq<char>)
    ensures
        first_word(s).len() <= s.len(),
        first_word(s).len() < s.len() ==> is_white_space(s[first_word(s).len() as int]),
        forall|j: int| 0 <= j < first_word(s).len() ==> !is_white_space(#[trigger] s[j]) && s[j]
            == first_word(s)[j],
    decreases s.len(),
{
    if s.len() == 0 || is_white_space(s[0]) {
    } else {
        let t = s.drop_first();
        lemma_first_word_len(t);
        let w = first_word(s);
        assert forall|j: int| 0 <= j < w.len() implies !is_white_space(#[trigger] s[j]) && s[j]
            == w[j] by {
            if j > 0 {
                assert(s[j] == t[j - 1]);
                assert(w[j] == first_word(t)[j - 1]);
            }
        }
        if w.len() < s.len() {
            assert(s[w.len() as int] == t[first_word(t).len() as int]);
        }
    }
}

/// Makes the title of a session from what the user wrote.
pub fn generate_session_title(user_input: &str) -> (title: String)
    ensures
        title@ == title_of(user_input@),
{
    let v = chars_of(user_input);
    let n = v.len();
    let mut title = String::new();
    let mut count: usize = 0;
    let mut i: usize = 0;
    proof {
        assert(v@.skip(0) =~= v@);
    }
    while count < 3
        invariant
            n == v.len(),
            v@ == user_input@,
            i <= n,
            count <= 3,
            count == 0 ==> title@.len() == 0 && words_of(v@, 3) == words_of(v@.skip(i as int), 3),
            count > 0 ==> title_rest(title@, words_of(v@.skip(i as int), (3 - count) as nat))
                == spaced(words_of(v@, 3)) && words_of(v@, 3).len() > 0,
        ensures
            words_of(v@.skip(i as int), (3 - count) as nat).len() == 0,
        decreases 3 - count,
    {
        let ghost from = v@.skip(i as int);
        let ghost limit = (3 - count) as nat;
        let before: usize = i;
        while i < n && char_is_white_space(v[i])
            invariant
                n == v.len(),
                before <= i <= n,
                from == v@.skip(before as int),
                skip_leading(from) == skip_leading(v@.skip(i as int)),
            decreases n - i,
        {
            proof {
                let cur = v@.skip(i as int);
                assert(cur[0] == v@[i as int]);
                assert(cur.drop_first() =~= v@.skip(i + 1));
            }
            i += 1;
        }
        let ghost rest = v@.skip(i as int);
        proof {
            if i < n {
                assert(rest[0] == v@[i as int]);
            }
            assert(skip_leading(rest) == rest);
        }
        if i == n {
            proof {
                assert(rest.len() == 0);
                assert(words_of(from, limit) =~= Seq::<Seq<char>>::empty());
                assert(words_of(rest, limit) =~= Seq::<Seq<char>>::empty());
                assert(words_of(from, limit) == words_of(rest, limit));
            }
            break ;
        }
        let start: usize = i;
        let ghost prefix = title@;
        if count > 0 {
            push_char(&mut title, ' ');
        }
        let ghost base = title@;
        proof {
            lemma_first_word_len(rest);
        }
        while i < n && !char_is_white_space(v[i])
            invariant
                n == v.len(),
                start <= i <= n,
                rest == v@.skip(start as int),
                i - start <= first_word(rest).len(),
                first_word(rest).len() <= rest.len(),
                first_word(rest).len() < rest.len() ==> is_white_space(
                    rest[first_word(rest).len() as int],
                ),
                forall|j: int|
                    0 <= j < first_word(rest).len() ==> !is_white_space(#[trigger] rest[j])
                        && rest[j] == first_word(rest)[j],
                title@ == base + first_word(rest).take(i - start),
            decreases n - i,
        {
            proof {
                assert(rest[i - start] == v@[i as int]);
                if i - start == first_word(rest).len() {
                    assert(is_white_space(rest[first_word(rest).len() as int]));
                }
            }
            push_char(&mut title, v[i]);
            proof {
                assert(first_word(rest).take(i - start + 1) =~= first_word(rest).take(
                    i - start,
                ).push(v@[i as int]));
                assert(base + first_word(rest).take(i - start + 1) =~= (base + first_word(
                    rest,
                ).take(i - start)).push(v@[i as int]));
            }
            i += 1;
        }
        proof {
            let w = first_word(rest);
            if i < n {
                assert(rest[i - start] == v@[i as int]);
            }
            assert(i - start == w.len()) by {
                if i - start < w.len() {
                    assert(!is_white_space(rest[i - start]));
                }
            }
            assert(w.take(w.len() as int) =~= w);
            assert(rest.skip(w.len() as int) =~= v@.skip(i as int));
            let more = words_of(v@.skip(i as int), (limit - 1) as nat);
            assert(skip_leading(from) == rest);
            assert(rest.len() > 0);
            assert(words_of(from, limit) == seq![w] + more);
            lemma_title_step(prefix, w, more, count > 0);
            if count > 0 {
                assert(title@ =~= prefix + seq![' '] + w);
            } else {
                assert(title@ =~= w);
                assert((seq![w] + more).len() > 0);
            }
        }
        count += 1;
    }
    proof {
        assert(words_of(v@.skip(i as int), (3 - count) as nat) =~= Seq::<Seq<char>>::empty());
    }
    if count == 0 {
        return "New Chat".to_owned();
    }
    title
}

/// What a title under construction comes to: the text so far, then the
/// words still to come, each after one space.
pub open spec fn title_rest(so_far: Seq<char>, more: Seq<Seq<char>>) -> Seq<char>
    decreases more.len(),
{
    if more.len() == 0 {
        so_far
    } else {
        title_rest(so_far + seq![' '] + more[0], more.drop_first())
    }
}

/// The words spaced are the first word and what the others come to after
/// it.
proof fn lemma_spaced_is_rest(words: Seq<Seq<char>>)
    requires
        words.len() > 0,
    ensures
        spaced(words) == title_rest(words[0], words.drop_first()),
    decreases words.len(),
{
    let others = words.drop_first();
    if others.len() > 0 {
        lemma_spaced_is_rest(others);
        lemma_rest_prefix(words[0] + seq![' '], others[0], others.drop_first());
        assert(words[0] + seq![' '] + others[0] =~= (words[0] + seq![' ']) + others[0]);
    }
}

/// What stands before a title under construction stays before what it comes
/// to.
proof fn lemma_rest_prefix(head: Seq<char>, so_far: Seq<char>, more: Seq<Seq<char>>)
    ensures
        title_rest(head + so_far, more) == head + title_rest(so_far, more),
    decreases more.len(),
{
    if more.len() > 0 {
        lemma_rest_prefix(head, so_far + seq![' '] + more[0], more.drop_first());
        assert(head + so_far + seq![' '] + more[0] =~= head + (so_far + seq![' '] + more[0]));
    }
}

/// Writing the next word keeps what the title comes to.
proof fn lemma_title_step(prefix: Seq<char>, w: Seq<char>, more: Seq<Seq<char>>, spaced_before: bool)
    ensures
        spaced_before ==> title_rest(prefix, seq![w] + more) == title_rest(
            prefix + seq![' '] + w,
            more,
        ),
        !spaced_before ==> spaced(seq![w] + more) == title_rest(w, more),
{
    let all = seq![w] + more;
    assert(all[0] == w);
    assert(all.drop_first() =~= more);
    if !spaced_before {
        lemma_spaced_is_rest(all);
    }
}

} // verus!
