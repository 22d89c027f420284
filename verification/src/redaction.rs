//! Keeping secrets out of messages.

use vstd::prelude::*;
use vstd::string::*;

use crate::text::chars_of;

verus! {

/// What stands in a message where a secret stood.
pub open spec fn mask() -> Seq<char> {
    "***"@
}

/// A text with `put` in place of each `taken`, from left to right.
pub open spec fn replaced(text: Seq<char>, taken: Seq<char>, put: Seq<char>) -> Seq<char>
    decreases text.len(),
{
    if taken.len() == 0 || text.len() < taken.len() {
        text
    } else if text.take(taken.len() as int) == taken {
        put + replaced(text.skip(taken.len() as int), taken, put)
    } else {
        seq![text[0]] + replaced(text.skip(1), taken, put)
    }
}

/// A message with the mask in place of each of the secrets.
pub open spec fn masked(message: Seq<char>, secrets: Seq<Seq<char>>) -> Seq<char>
    decreases secrets.len(),
{
    if secrets.len() == 0 {
        message
    } else {
        replaced(masked(message, secrets.drop_last()), secrets.last(), mask())
    }
}

/// Whether the characters from `at` on begin with `part`.
fn stands_at(chars: &Vec<char>, at: usize, part: &Vec<char>) -> (yes: bool)
    requires
        at + part@.len() <= chars@.len(),
    ensures
        yes == (chars@.skip(at as int).take(part@.len() as int) == part@),
{
    let ghost here = chars@.skip(at as int).take(part@.len() as int);
    let end: usize = chars.len();
    let mut i: usize = 0;
    while i < part.len()
        invariant
            i <= part@.len(),
            end == chars@.len(),
            at + part@.len() <= chars@.len(),
            here == chars@.skip(at as int).take(part@.len() as int),
            forall|j: int| 0 <= j < i ==> here[j] == part@[j],
        decreases part@.len() - i,
    {
        assert(here[i as int] == chars@[at + i]);
        if chars[at + i] != part[i] {
            return false;
        }
        i += 1;
    }
    assert(here =~= part@);
    true
}

/// A text with `put` in place of each `taken`, from left to right. Where there
/// is nothing to take, nothing is put.
pub fn replace(text: &str, taken: &str, put: &str) -> (out: String)
    ensures
        out@ == replaced(text@, taken@, put@),
{
    let chars = chars_of(text);
    let part = chars_of(taken);
    let mut out = String::new();
    if part.len() == 0 {
        return text.to_owned();
    }
    let mut i: usize = 0;
    assert(chars@.skip(0) =~= chars@);
    while i < chars.len()
        invariant
            i <= chars@.len(),
            part@ == taken@,
            part@.len() > 0,
            replaced(chars@, part@, put@) == out@ + replaced(chars@.skip(i as int), part@, put@),
        decreases chars@.len() - i,
    {
        let ghost so_far = out@;
        let ghost rest = chars@.skip(i as int);
        let ghost goal = so_far + replaced(rest, part@, put@);
        if chars.len() - i >= part.len() && stands_at(&chars, i, &part) {
            out.append(put);
            assert(rest.skip(part@.len() as int) =~= chars@.skip(i + part@.len()));
            assert(out@ + replaced(chars@.skip(i + part@.len()), part@, put@) =~= goal);
            i += part.len();
        } else {
            out.push(chars[i]);
            assert(rest.skip(1) =~= chars@.skip(i + 1));
            assert(rest =~= seq![rest[0]] + rest.skip(1));
            assert(out@ + replaced(chars@.skip(i + 1), part@, put@) =~= goal);
            i += 1;
        }
    }
    assert(chars@.skip(i as int) =~= Seq::<char>::empty());
    assert(out@ + replaced(chars@.skip(i as int), part@, put@) =~= out@);
    out
}

/// A message with the mask in place of each of the secrets.
pub fn redact(message: &str, secrets: &Vec<String>) -> (out: String)
    ensures
        out@ == masked(message@, secrets.deep_view()),
{
    let ghost all = secrets.deep_view();
    let mut out = message.to_owned();
    let mut i: usize = 0;
    while i < secrets.len()
        invariant
            i <= secrets.len(),
            all == secrets.deep_view(),
            out@ == masked(message@, all.take(i as int)),
        decreases secrets.len() - i,
    {
        assert(all.take(i + 1).drop_last() =~= all.take(i as int));
        out = replace(out.as_str(), secrets[i].as_str(), "***");
        i += 1;
    }
    assert(all.take(all.len() as int) =~= all);
    out
}

/// Notes down a value that no message may show. There is nothing to note down
/// of a value that is absent or empty.
pub fn push_sensitive(values: &mut Vec<String>, value: Option<&str>)
    ensures
        final(values).deep_view() == (match value {
            Some(secret) if secret@.len() > 0 => old(values).deep_view().push(secret@),
            _ => old(values).deep_view(),
        }),
{
    if let Some(secret) = value {
        if !secret.is_empty() {
            values.push(secret.to_owned());
            assert(values.deep_view() =~= old(values).deep_view().push(secret@));
        }
    }
}

/// Whether `part` stands in `text` from `at` on.
pub open spec fn occurs_at(text: Seq<char>, part: Seq<char>, at: int) -> bool {
    &&& 0 <= at
    &&& at + part.len() <= text.len()
    &&& text.subrange(at, at + part.len()) == part
}

/// Whether `part` stands anywhere in `text`.
pub open spec fn occurs(text: Seq<char>, part: Seq<char>) -> bool {
    exists|at: int| occurs_at(text, part, at)
}

/// Whether two texts have no character in common.
pub open spec fn disjoint(left: Seq<char>, right: Seq<char>) -> bool {
    forall|i: int, j: int|
        0 <= i < left.len() && 0 <= j < right.len() ==> #[trigger] left[i] != #[trigger] right[j]
}

/// What a replacement copies before it first puts something in.
proof fn copied_prefix(text: Seq<char>, taken: Seq<char>, put: Seq<char>, k: int)
    requires
        put.len() > 0,
        0 <= k <= replaced(text, taken, put).len(),
        disjoint(replaced(text, taken, put).take(k), put),
    ensures
        k <= text.len(),
        text.take(k) == replaced(text, taken, put).take(k),
    decreases text.len(),
{
    let out = replaced(text, taken, put);
    if k > 0 && taken.len() > 0 && text.len() >= taken.len() {
        assert(out.take(k)[0] == out[0]);
        if text.take(taken.len() as int) == taken {
            assert(out[0] == put[0]);
        } else {
            let rest = replaced(text.skip(1), taken, put);
            assert forall|i: int, j: int|
                0 <= i < k - 1 && 0 <= j < put.len() implies #[trigger] rest.take(k - 1)[i]
                != #[trigger] put[j] by {
                assert(out.take(k)[i + 1] == rest[i]);
            }
            copied_prefix(text.skip(1), taken, put, k - 1);
            assert(text.take(k) =~= seq![text[0]] + text.skip(1).take(k - 1));
            assert(out.take(k) =~= seq![text[0]] + rest.take(k - 1));
        }
    } else if k == 0 {
        assert(text.take(0) =~= out.take(0));
    }
}

/// A replacement brings in no text that shares nothing with what it puts.
proof fn nothing_brought_in(text: Seq<char>, taken: Seq<char>, put: Seq<char>, part: Seq<char>, at: int)
    requires
        put.len() > 0,
        part.len() > 0,
        disjoint(part, put),
        occurs_at(replaced(text, taken, put), part, at),
    ensures
        occurs(text, part),
        part != taken,
    decreases text.len(),
{
    let out = replaced(text, taken, put);
    if taken.len() == 0 || text.len() < taken.len() {
        assert(occurs_at(text, part, at));
    } else if text.take(taken.len() as int) == taken {
        let n = taken.len() as int;
        let rest = replaced(text.skip(n), taken, put);
        if at < put.len() {
            assert(out.subrange(at, at + part.len())[0] == put[at]);
        } else {
            assert(rest.subrange(at - put.len(), at - put.len() + part.len()) =~= out.subrange(
                at,
                at + part.len(),
            ));
            nothing_brought_in(text.skip(n), taken, put, part, at - put.len());
            let found = choose|p: int| occurs_at(text.skip(n), part, p);
            assert(text.subrange(n + found, n + found + part.len()) =~= text.skip(n).subrange(
                found,
                found + part.len(),
            ));
            assert(occurs_at(text, part, n + found));
        }
    } else {
        let rest = replaced(text.skip(1), taken, put);
        if at > 0 {
            assert(rest.subrange(at - 1, at - 1 + part.len()) =~= out.subrange(
                at,
                at + part.len(),
            ));
            nothing_brought_in(text.skip(1), taken, put, part, at - 1);
            let found = choose|p: int| occurs_at(text.skip(1), part, p);
            assert(text.subrange(1 + found, 1 + found + part.len()) =~= text.skip(1).subrange(
                found,
                found + part.len(),
            ));
            assert(occurs_at(text, part, 1 + found));
        } else {
            let k = part.len() as int;
            assert(out.take(k) =~= part);
            copied_prefix(text, taken, put, k);
            assert(text.subrange(0, k) =~= text.take(k));
            assert(occurs_at(text, part, 0));
        }
    }
}

/// Whether a secret can be masked: it is not empty, and shares no character
/// with the mask.
pub open spec fn maskable(secret: Seq<char>) -> bool {
    secret.len() > 0 && disjoint(secret, mask())
}

/// No secret that can be masked is left in a redacted message, whatever the
/// message and the other secrets are.
pub proof fn redaction_leaves_no_secret(message: Seq<char>, secrets: Seq<Seq<char>>, secret: Seq<char>)
    requires
        secrets.contains(secret),
        maskable(secret),
    ensures
        !occurs(masked(message, secrets), secret),
    decreases secrets.len(),
{
    reveal_strlit("***");
    let before = masked(message, secrets.drop_last());
    if occurs(masked(message, secrets), secret) {
        let at = choose|at: int| occurs_at(masked(message, secrets), secret, at);
        nothing_brought_in(before, secrets.last(), mask(), secret, at);
        let k = choose|k: int| 0 <= k < secrets.len() && secrets[k] == secret;
        assert(k < secrets.len() - 1);
        assert(secrets.drop_last()[k] == secret);
        redaction_leaves_no_secret(message, secrets.drop_last(), secret);
    }
}

/// A message that holds none of the secrets is left as it is.
pub proof fn redaction_keeps_the_rest(message: Seq<char>, secrets: Seq<Seq<char>>)
    requires
        forall|i: int| 0 <= i < secrets.len() ==> !occurs(message, #[trigger] secrets[i]),
    ensures
        masked(message, secrets) == message,
    decreases secrets.len(),
{
    if secrets.len() > 0 {
        assert forall|i: int| 0 <= i < secrets.drop_last().len() implies !occurs(
            message,
            #[trigger] secrets.drop_last()[i],
        ) by {
            assert(secrets.drop_last()[i] == secrets[i]);
        }
        redaction_keeps_the_rest(message, secrets.drop_last());
        nothing_to_take(message, secrets.last(), mask());
    }
}

proof fn nothing_to_take(text: Seq<char>, taken: Seq<char>, put: Seq<char>)
    requires
        !occurs(text, taken),
    ensures
        replaced(text, taken, put) == text,
    decreases text.len(),
{
    if taken.len() > 0 && text.len() >= taken.len() {
        assert(text.subrange(0, taken.len() as int) =~= text.take(taken.len() as int));
        assert(!occurs_at(text, taken, 0));
        assert forall|at: int| !occurs_at(text.skip(1), taken, at) by {
            if occurs_at(text.skip(1), taken, at) {
                assert(text.subrange(1 + at, 1 + at + taken.len()) =~= text.skip(1).subrange(
                    at,
                    at + taken.len(),
                ));
                assert(occurs_at(text, taken, 1 + at));
            }
        }
        nothing_to_take(text.skip(1), taken, put);
        assert(text =~= seq![text[0]] + text.skip(1));
    }
}

/// A secret is masked where it stands: what comes before its first place and what
/// follows on it stay there, the one as it is and the other masked in its turn.
pub proof fn a_secret_is_masked_where_it_stands(
    before: Seq<char>,
    secret: Seq<char>,
    after: Seq<char>,
)
    requires
        secret.len() > 0,
        forall|at: int| 0 <= at < before.len() ==> !#[trigger] occurs_at(
            before + secret + after,
            secret,
            at,
        ),
    ensures
        masked(before + secret + after, seq![secret]) == before + "***"@ + masked(
            after,
            seq![secret],
        ),
{
    let text = before + secret + after;
    masked_by_one(text, secret);
    masked_by_one(after, secret);
    replaced_at_its_first_place(before, secret, after);
}

proof fn masked_by_one(text: Seq<char>, secret: Seq<char>)
    ensures
        masked(text, seq![secret]) == replaced(text, secret, mask()),
{
    assert(seq![secret].drop_last() =~= Seq::empty());
    assert(masked(text, Seq::empty()) == text);
}

proof fn replaced_at_its_first_place(before: Seq<char>, secret: Seq<char>, after: Seq<char>)
    requires
        secret.len() > 0,
        forall|at: int| 0 <= at < before.len() ==> !#[trigger] occurs_at(
            before + secret + after,
            secret,
            at,
        ),
    ensures
        replaced(before + secret + after, secret, mask()) == before + "***"@ + replaced(
            after,
            secret,
            mask(),
        ),
    decreases before.len(),
{
    let text = before + secret + after;
    if before.len() == 0 {
        assert(text.take(secret.len() as int) =~= secret);
        assert(text.skip(secret.len() as int) =~= after);
        assert(before + "***"@ =~= "***"@);
    } else {
        let rest = before.drop_first();
        let shorter = rest + secret + after;
        assert(text.skip(1) =~= shorter);
        assert(!occurs_at(text, secret, 0));
        assert(text.subrange(0, secret.len() as int) =~= text.take(secret.len() as int));
        assert forall|at: int| 0 <= at < rest.len() implies !#[trigger] occurs_at(
            shorter,
            secret,
            at,
        ) by {
            assert(!occurs_at(text, secret, at + 1));
            assert(shorter.subrange(at, at + secret.len()) =~= text.subrange(
                at + 1,
                at + 1 + secret.len(),
            ));
        }
        replaced_at_its_first_place(rest, secret, after);
        assert(seq![text[0]] + (rest + "***"@ + replaced(after, secret, mask())) =~= before
            + "***"@ + replaced(after, secret, mask()));
    }
}

/// Several secrets are masked one after the other, and without one a message is
/// left as it is.
pub proof fn secrets_are_masked_in_turn(
    message: Seq<char>,
    secrets: Seq<Seq<char>>,
    secret: Seq<char>,
)
    ensures
        masked(message, Seq::empty()) == message,
        masked(message, secrets.push(secret)) == masked(masked(message, secrets), seq![secret]),
{
    masked_by_one(masked(message, secrets), secret);
    assert(secrets.push(secret).drop_last() =~= secrets);
}

} // verus!
