//! Variables in the texts of a task.
//!
//! A text can quote the message that started its task, and the public address
//! that was found last: `{{ntfy_topic}}`, `{{ntfy_title}}`, `{{ntfy_message}}`,
//! `{{ntfy_tags1}}` and so on, and `{{public_ip}}`.

use crate::number::decimal;
use crate::number::decimal_text;
use crate::number::is_digit;
use crate::number::lemma_decimal_digits;
use crate::task::NtfyContext;
use crate::task::NtfyContextView;
use crate::text::cat3;
use crate::text::contains;
use crate::text::copy_text;
use crate::text::join;
use crate::text::law_containing_is_standing_in;
use crate::text::law_joined_parts_come_back;
use crate::text::law_trim_takes_blanks;
use crate::text::lemma_replace_absent;
use crate::text::lemma_replace_whole;
use crate::text::occurs_at;
use crate::text::replace_all;
use crate::text::replace_all_text;
use crate::text::split;
use crate::text::split_text;
use crate::text::stands_in;
use crate::text::texts;
use crate::text::trim;
use crate::text::trim_text;
use vstd::prelude::*;

verus! {

/// The contents of a message context that may be missing.
pub open spec fn context_of(ntfy: Option<&NtfyContext>) -> Option<NtfyContextView> {
    match ntfy {
        Some(c) => Some(c@),
        None => None,
    }
}

/// The contents of a text that may be missing.
pub open spec fn text_of(text: Option<&str>) -> Option<Seq<char>> {
    match text {
        Some(s) => Some(s@),
        None => None,
    }
}

/// The variable that stands for the tag with a number, counted from one.
pub open spec fn tag_variable(number: nat) -> Seq<char> {
    "{{ntfy_tags"@ + decimal(number) + "}}"@
}

/// The text with the variables of the given tags replaced, in the order of the
/// tags. A tag that is blank leaves its variable as it is.
pub open spec fn with_tags(s: Seq<char>, tags: Seq<Seq<char>>) -> Seq<char>
    decreases tags.len(),
{
    if tags.len() == 0 {
        s
    } else {
        let before = with_tags(s, tags.drop_last());
        let tag = trim(tags.last());
        if tag.len() == 0 {
            before
        } else {
            replace_all(before, tag_variable(tags.len()), tag)
        }
    }
}

/// The text with the variables of a message replaced.
pub open spec fn with_context(s: Seq<char>, context: NtfyContextView) -> Seq<char> {
    let topic = replace_all(s, "{{ntfy_topic}}"@, context.topic);
    let title = replace_all(topic, "{{ntfy_title}}"@, context.title);
    let message = replace_all(title, "{{ntfy_message}}"@, context.message);
    with_tags(message, split(context.tags, ','))
}

/// The text with all variables replaced whose values are known.
pub open spec fn substituted(
    s: Seq<char>,
    context: Option<NtfyContextView>,
    public_ip: Option<Seq<char>>,
) -> Seq<char> {
    let address = match public_ip {
        Some(ip) => replace_all(s, "{{public_ip}}"@, ip),
        None => s,
    };
    match context {
        Some(c) => with_context(address, c),
        None => address,
    }
}

/// The lengths of the variables, none of which is empty.
proof fn lemma_variable_lengths()
    ensures
        "{{public_ip}}"@.len() == 13,
        "{{ntfy_topic}}"@.len() == 14,
        "{{ntfy_title}}"@.len() == 14,
        "{{ntfy_message}}"@.len() == 16,
        "{{ntfy_tags"@.len() == 11,
        "}}"@.len() == 2,
        "{{"@.len() == 2,
{
    reveal_strlit("{{public_ip}}");
    reveal_strlit("{{ntfy_topic}}");
    reveal_strlit("{{ntfy_title}}");
    reveal_strlit("{{ntfy_message}}");
    reveal_strlit("{{ntfy_tags");
    reveal_strlit("}}");
    reveal_strlit("{{");
}

/// The text with all variables replaced whose values are known.
pub fn substitute_variables(
    text: &str,
    ntfy: Option<&NtfyContext>,
    public_ip: Option<&str>,
) -> (r: String)
    ensures
        r@ == substituted(text@, context_of(ntfy), text_of(public_ip)),
{
    proof {
        lemma_variable_lengths();
    }
    let mut result = copy_text(text);
    if let Some(ip) = public_ip {
        result = replace_all_text(result.as_str(), "{{public_ip}}", ip);
    }
    if let Some(context) = ntfy {
        result = replace_all_text(result.as_str(), "{{ntfy_topic}}", context.topic.as_str());
        result = replace_all_text(result.as_str(), "{{ntfy_title}}", context.title.as_str());
        result = replace_all_text(result.as_str(), "{{ntfy_message}}", context.message.as_str());
        let tags = split_text(context.tags.as_str(), ',');
        let ghost all = texts(tags@);
        let ghost start = result@;
        let mut i: usize = 0;
        assert(all.take(0) =~= Seq::<Seq<char>>::empty());
        while i < tags.len()
            invariant
                all == texts(tags@),
                i <= tags@.len(),
                result@ == with_tags(start, all.take(i as int)),
            decreases tags@.len() - i,
        {
            assert(all.take(i + 1).drop_last() =~= all.take(i as int));
            assert(all.take(i + 1).last() == tags@[i as int]@);
            let tag = trim_text(tags[i].as_str());
            if !tag.as_str().is_empty() {
                let number = decimal_text((i + 1) as u64);
                let variable = cat3("{{ntfy_tags", number.as_str(), "}}");
                proof {
                    lemma_variable_lengths();
                }
                result = replace_all_text(result.as_str(), variable.as_str(), tag.as_str());
            }
            i = i + 1;
        }
        assert(all.take(tags@.len() as int) =~= all);
    }
    result
}

// ---------------------------------------------------------------------------
// Laws
// ---------------------------------------------------------------------------

/// A text that does not hold the start of a pattern does not hold the pattern.
proof fn lemma_no_start_no_pattern(s: Seq<char>, pattern: Seq<char>)
    requires
        !contains(s, "{{"@),
        pattern.len() >= 2,
        pattern[0] == '{',
        pattern[1] == '{',
    ensures
        !contains(s, pattern),
{
    reveal_strlit("{{");
    if contains(s, pattern) {
        let i = choose|i: int| occurs_at(s, pattern, i);
        assert(s.subrange(i, i + pattern.len())[0] == pattern[0]);
        assert(s.subrange(i, i + pattern.len())[1] == pattern[1]);
        assert(s.subrange(i, i + 2) =~= "{{"@);
        assert(occurs_at(s, "{{"@, i));
    }
}

/// Every variable begins with two braces.
proof fn lemma_variables_begin(number: nat)
    ensures
        "{{public_ip}}"@[0] == '{',
        "{{public_ip}}"@[1] == '{',
        "{{ntfy_topic}}"@[0] == '{',
        "{{ntfy_topic}}"@[1] == '{',
        "{{ntfy_title}}"@[0] == '{',
        "{{ntfy_title}}"@[1] == '{',
        "{{ntfy_message}}"@[0] == '{',
        "{{ntfy_message}}"@[1] == '{',
        tag_variable(number)[0] == '{',
        tag_variable(number)[1] == '{',
{
    reveal_strlit("{{public_ip}}");
    reveal_strlit("{{ntfy_topic}}");
    reveal_strlit("{{ntfy_title}}");
    reveal_strlit("{{ntfy_message}}");
    reveal_strlit("{{ntfy_tags");
}

/// Tags leave a text without variables as it is.
proof fn lemma_tags_leave(s: Seq<char>, tags: Seq<Seq<char>>)
    requires
        !contains(s, "{{"@),
    ensures
        with_tags(s, tags) == s,
    decreases tags.len(),
{
    if tags.len() > 0 {
        lemma_tags_leave(s, tags.drop_last());
        lemma_variables_begin(tags.len());
        lemma_variable_lengths();
        lemma_no_start_no_pattern(s, tag_variable(tags.len()));
        lemma_replace_absent(s, tag_variable(tags.len()), trim(tags.last()));
    }
}

/// A text without two opening braces in a row comes out as it went in, whatever
/// is known of a message or an address.
pub proof fn law_plain_text_is_kept(
    s: Seq<char>,
    context: Option<NtfyContextView>,
    public_ip: Option<Seq<char>>,
)
    requires
        !contains(s, "{{"@),
    ensures
        substituted(s, context, public_ip) == s,
{
    lemma_variables_begin(0);
    lemma_variable_lengths();
    if let Some(ip) = public_ip {
        lemma_no_start_no_pattern(s, "{{public_ip}}"@);
        lemma_replace_absent(s, "{{public_ip}}"@, ip);
    }
    if let Some(c) = context {
        lemma_no_start_no_pattern(s, "{{ntfy_topic}}"@);
        lemma_replace_absent(s, "{{ntfy_topic}}"@, c.topic);
        lemma_no_start_no_pattern(s, "{{ntfy_title}}"@);
        lemma_replace_absent(s, "{{ntfy_title}}"@, c.title);
        lemma_no_start_no_pattern(s, "{{ntfy_message}}"@);
        lemma_replace_absent(s, "{{ntfy_message}}"@, c.message);
        lemma_tags_leave(s, split(c.tags, ','));
    }
}

/// Where nothing is known, a text comes out as it went in.
pub proof fn law_nothing_known_nothing_replaced(s: Seq<char>)
    ensures
        substituted(s, None, None) == s,
{
}

/// A variable: two opening braces, and no other opening brace behind them.
spec fn braced(v: Seq<char>) -> bool {
    &&& v.len() >= 2
    &&& v[0] == '{'
    &&& v[1] == '{'
    &&& forall|j: int| 2 <= j < v.len() ==> v[j] != '{'
}

/// One variable holds another only at its start.
proof fn lemma_no_other_variable(v: Seq<char>, other: Seq<char>)
    requires
        braced(v),
        braced(other),
        !occurs_at(v, other, 0),
    ensures
        !contains(v, other),
{
    if contains(v, other) {
        let i = choose|i: int| occurs_at(v, other, i);
        let part = v.subrange(i, i + other.len());
        assert(part[0] == v[i]);
        assert(part[1] == v[i + 1]);
    }
}

/// The variables are of that form.
proof fn lemma_variables_braced()
    ensures
        braced("{{public_ip}}"@),
        braced("{{ntfy_topic}}"@),
        braced("{{ntfy_title}}"@),
        braced("{{ntfy_message}}"@),
        forall|n: nat| braced(#[trigger] tag_variable(n)),
{
    reveal_strlit("{{public_ip}}");
    reveal_strlit("{{ntfy_topic}}");
    reveal_strlit("{{ntfy_title}}");
    reveal_strlit("{{ntfy_message}}");
    reveal_strlit("{{ntfy_tags");
    reveal_strlit("}}");
    assert forall|n: nat| braced(#[trigger] tag_variable(n)) by {
        lemma_decimal_digits(n);
        let v = tag_variable(n);
        assert forall|j: int| 2 <= j < v.len() implies v[j] != '{' by {
            if 11 <= j < 11 + decimal(n).len() {
                assert(v[j] == decimal(n)[j - 11]);
                assert(is_digit(decimal(n)[j - 11]));
            }
        }
    }
}

/// The fixed variables differ from each other and from those of the tags, so
/// that none holds another.
proof fn lemma_variables_apart(n: nat)
    ensures
        !contains("{{ntfy_topic}}"@, "{{public_ip}}"@),
        !contains("{{ntfy_title}}"@, "{{public_ip}}"@),
        !contains("{{ntfy_title}}"@, "{{ntfy_topic}}"@),
        !contains("{{ntfy_message}}"@, "{{public_ip}}"@),
        !contains("{{ntfy_message}}"@, "{{ntfy_topic}}"@),
        !contains("{{ntfy_message}}"@, "{{ntfy_title}}"@),
        !contains(tag_variable(n), "{{public_ip}}"@),
        !contains(tag_variable(n), "{{ntfy_topic}}"@),
        !contains(tag_variable(n), "{{ntfy_title}}"@),
        !contains(tag_variable(n), "{{ntfy_message}}"@),
{
    lemma_variables_braced();
    let ip = "{{public_ip}}"@;
    let topic = "{{ntfy_topic}}"@;
    let title = "{{ntfy_title}}"@;
    let message = "{{ntfy_message}}"@;
    let tag = tag_variable(n);
    reveal_strlit("{{public_ip}}");
    reveal_strlit("{{ntfy_topic}}");
    reveal_strlit("{{ntfy_title}}");
    reveal_strlit("{{ntfy_message}}");
    reveal_strlit("{{ntfy_tags");
    assert(braced(tag));
    assert(tag[2] == 'n' && tag[7] == 't' && tag[8] == 'a');
    lemma_not_at_start(topic, ip, 2);
    lemma_not_at_start(title, ip, 2);
    lemma_not_at_start(title, topic, 8);
    lemma_not_at_start(message, ip, 2);
    lemma_not_at_start(message, topic, 7);
    lemma_not_at_start(message, title, 7);
    lemma_not_at_start(tag, ip, 2);
    lemma_not_at_start(tag, topic, 8);
    lemma_not_at_start(tag, title, 8);
    lemma_not_at_start(tag, message, 7);
}

/// Two variables that differ in a character both have are apart.
proof fn lemma_not_at_start(v: Seq<char>, other: Seq<char>, at: int)
    requires
        braced(v),
        braced(other),
        0 <= at < other.len(),
        at < v.len(),
        v[at] != other[at],
    ensures
        !contains(v, other),
{
    if occurs_at(v, other, 0) {
        assert(v.subrange(0, other.len() as int)[at] == other[at]);
    }
    lemma_no_other_variable(v, other);
}

/// The variables of two different tags are apart.
proof fn lemma_tags_apart(n: nat, m: nat)
    requires
        n != m,
    ensures
        !contains(tag_variable(n), tag_variable(m)),
{
    lemma_variables_braced();
    lemma_variable_lengths();
    reveal_strlit("}}");
    lemma_decimal_digits(n);
    lemma_decimal_digits(m);
    let v = tag_variable(n);
    let other = tag_variable(m);
    assert(braced(v) && braced(other));
    let a = decimal(n);
    let b = decimal(m);
    if occurs_at(v, other, 0) {
        let part = v.subrange(0, other.len() as int);
        assert(part == other);
        assert forall|j: int| 0 <= j < b.len() implies v[11 + j] == b[j] by {
            assert(part[11 + j] == other[11 + j]);
        }
        assert(v[11 + b.len() as int] == '}') by {
            assert(part[11 + b.len() as int] == other[11 + b.len() as int]);
        }
        if b.len() < a.len() {
            assert(v[11 + b.len() as int] == a[b.len() as int]);
            assert(is_digit(a[b.len() as int]));
        } else if b.len() > a.len() {
            assert(v[11 + a.len() as int] == '}');
            assert(is_digit(b[a.len() as int]));
        } else {
            assert forall|j: int| 0 <= j < a.len() implies a[j] == b[j] by {
                assert(v[11 + j] == a[j]);
            }
            assert(a =~= b);
        }
        assert(false);
    }
    lemma_no_other_variable(v, other);
}

/// The tags before the one whose variable a text is leave the text.
proof fn lemma_earlier_tags_leave(number: nat, tags: Seq<Seq<char>>)
    requires
        tags.len() < number,
    ensures
        with_tags(tag_variable(number), tags) == tag_variable(number),
    decreases tags.len(),
{
    if tags.len() > 0 {
        lemma_earlier_tags_leave(number, tags.drop_last());
        lemma_tags_apart(number, tags.len());
        lemma_replace_absent(
            tag_variable(number),
            tag_variable(tags.len()),
            trim(tags.last()),
        );
    }
}

/// The variable of a tag becomes that tag.
proof fn lemma_tag_replaced(number: nat, tags: Seq<Seq<char>>)
    requires
        1 <= number <= tags.len(),
        trim(tags[number - 1]).len() > 0,
        !contains(trim(tags[number - 1]), "{{"@),
    ensures
        with_tags(tag_variable(number), tags) == trim(tags[number - 1]),
    decreases tags.len(),
{
    lemma_variable_lengths();
    let tag = trim(tags[number - 1]);
    if number == tags.len() {
        lemma_earlier_tags_leave(number, tags.drop_last());
        lemma_replace_whole(tag_variable(number), tag);
    } else {
        lemma_tag_replaced(number, tags.drop_last());
        lemma_variables_begin(tags.len());
        lemma_no_start_no_pattern(tag, tag_variable(tags.len()));
        lemma_replace_absent(tag, tag_variable(tags.len()), trim(tags.last()));
    }
}

/// `{{public_ip}}` alone becomes the address, unless the address itself holds
/// the start of a variable.
pub proof fn law_public_ip_is_quoted(context: Option<NtfyContextView>, ip: Seq<char>)
    requires
        !contains(ip, "{{"@),
    ensures
        substituted("{{public_ip}}"@, context, Some(ip)) == ip,
{
    lemma_variable_lengths();
    lemma_replace_whole("{{public_ip}}"@, ip);
    law_plain_text_is_kept(ip, context, None);
}

/// A text that neither the address nor the topic touches.
proof fn lemma_up_to_title(v: Seq<char>, context: NtfyContextView, public_ip: Option<Seq<char>>)
    requires
        !contains(v, "{{public_ip}}"@),
        !contains(v, "{{ntfy_topic}}"@),
    ensures
        substituted(v, Some(context), public_ip) == with_tags(
            replace_all(
                replace_all(v, "{{ntfy_title}}"@, context.title),
                "{{ntfy_message}}"@,
                context.message,
            ),
            split(context.tags, ','),
        ),
{
    if let Some(ip) = public_ip {
        lemma_replace_absent(v, "{{public_ip}}"@, ip);
    }
    lemma_replace_absent(v, "{{ntfy_topic}}"@, context.topic);
}

/// `{{ntfy_topic}}` alone becomes the topic of the message, unless the topic
/// itself holds the start of a variable.
pub proof fn law_topic_is_quoted(context: NtfyContextView, public_ip: Option<Seq<char>>)
    requires
        !contains(context.topic, "{{"@),
    ensures
        substituted("{{ntfy_topic}}"@, Some(context), public_ip) == context.topic,
{
    let v = "{{ntfy_topic}}"@;
    lemma_variable_lengths();
    lemma_variables_apart(0);
    lemma_variables_begin(0);
    if let Some(ip) = public_ip {
        lemma_replace_absent(v, "{{public_ip}}"@, ip);
    }
    lemma_replace_whole(v, context.topic);
    let value = context.topic;
    lemma_no_start_no_pattern(value, "{{ntfy_title}}"@);
    lemma_replace_absent(value, "{{ntfy_title}}"@, context.title);
    lemma_no_start_no_pattern(value, "{{ntfy_message}}"@);
    lemma_replace_absent(value, "{{ntfy_message}}"@, context.message);
    lemma_tags_leave(value, split(context.tags, ','));
}

/// `{{ntfy_title}}` alone becomes the title of the message, unless the title
/// itself holds the start of a variable.
pub proof fn law_title_is_quoted(context: NtfyContextView, public_ip: Option<Seq<char>>)
    requires
        !contains(context.title, "{{"@),
    ensures
        substituted("{{ntfy_title}}"@, Some(context), public_ip) == context.title,
{
    lemma_variable_lengths();
    lemma_variables_apart(0);
    lemma_variables_begin(0);
    lemma_up_to_title("{{ntfy_title}}"@, context, public_ip);
    lemma_replace_whole("{{ntfy_title}}"@, context.title);
    let value = context.title;
    lemma_no_start_no_pattern(value, "{{ntfy_message}}"@);
    lemma_replace_absent(value, "{{ntfy_message}}"@, context.message);
    lemma_tags_leave(value, split(context.tags, ','));
}

/// `{{ntfy_message}}` alone becomes the body of the message, unless the body
/// itself holds the start of a variable.
pub proof fn law_message_is_quoted(context: NtfyContextView, public_ip: Option<Seq<char>>)
    requires
        !contains(context.message, "{{"@),
    ensures
        substituted("{{ntfy_message}}"@, Some(context), public_ip) == context.message,
{
    let v = "{{ntfy_message}}"@;
    lemma_variable_lengths();
    lemma_variables_apart(0);
    lemma_up_to_title(v, context, public_ip);
    lemma_replace_absent(v, "{{ntfy_title}}"@, context.title);
    lemma_replace_whole(v, context.message);
    lemma_tags_leave(context.message, split(context.tags, ','));
}

/// `{{ntfy_tags1}}` alone becomes the first tag, `{{ntfy_tags2}}` the second,
/// and so on, without the white space around it, unless the tag is blank or
/// itself holds the start of a variable.
pub proof fn law_tag_is_quoted(
    number: nat,
    context: NtfyContextView,
    public_ip: Option<Seq<char>>,
)
    requires
        1 <= number <= split(context.tags, ',').len(),
        trim(split(context.tags, ',')[number - 1]).len() > 0,
        !contains(trim(split(context.tags, ',')[number - 1]), "{{"@),
    ensures
        substituted(tag_variable(number), Some(context), public_ip) == trim(
            split(context.tags, ',')[number - 1],
        ),
{
    let v = tag_variable(number);
    lemma_variables_apart(number);
    lemma_up_to_title(v, context, public_ip);
    lemma_replace_absent(v, "{{ntfy_title}}"@, context.title);
    lemma_replace_absent(v, "{{ntfy_message}}"@, context.message);
    lemma_tag_replaced(number, split(context.tags, ','));
}

/// A text without an opening brace, which no variable can begin in.
pub open spec fn is_plain(s: Seq<char>) -> bool {
    forall|i: int| 0 <= i < s.len() ==> #[trigger] s[i] != '{'
}

/// A plain text in front is passed over.
proof fn lemma_replace_past(front: Seq<char>, rest: Seq<char>, pattern: Seq<char>, with: Seq<char>)
    requires
        is_plain(front),
        braced(pattern),
    ensures
        replace_all(front + rest, pattern, with) == front + replace_all(rest, pattern, with),
    decreases front.len(),
{
    let s = front + rest;
    if front.len() == 0 {
        assert(s =~= rest);
        assert(front + replace_all(rest, pattern, with) =~= replace_all(rest, pattern, with));
    } else {
        assert(s[0] == front[0]);
        if occurs_at(s, pattern, 0) {
            assert(s.subrange(0, pattern.len() as int)[0] == pattern[0]);
        }
        let tail = front.skip(1);
        assert(s.skip(1) =~= tail + rest);
        assert(is_plain(tail)) by {
            assert forall|i: int| 0 <= i < tail.len() implies #[trigger] tail[i] != '{' by {
                assert(front[i + 1] != '{');
            }
        }
        lemma_replace_past(tail, rest, pattern, with);
        assert(seq![s[0]] + (tail + replace_all(rest, pattern, with)) =~= front + replace_all(
            rest,
            pattern,
            with,
        ));
    }
}

/// Another variable in front is passed over.
proof fn lemma_replace_past_variable(
    v: Seq<char>,
    rest: Seq<char>,
    pattern: Seq<char>,
    with: Seq<char>,
    at: int,
)
    requires
        braced(v),
        braced(pattern),
        v.len() > 2,
        0 <= at < v.len(),
        at < pattern.len(),
        v[at] != pattern[at],
    ensures
        replace_all(v + rest, pattern, with) == v + replace_all(rest, pattern, with),
{
    let s = v + rest;
    if occurs_at(s, pattern, 0) {
        assert(s.subrange(0, pattern.len() as int)[at] == s[at]);
    }
    let t = s.skip(1);
    assert(t[0] == v[1] && t[1] == v[2]);
    if occurs_at(t, pattern, 0) {
        assert(t.subrange(0, pattern.len() as int)[1] == t[1]);
    }
    let tail = v.skip(2);
    assert(t.skip(1) =~= tail + rest);
    assert forall|i: int| 0 <= i < tail.len() implies #[trigger] tail[i] != '{' by {
        assert(v[i + 2] != '{');
    }
    lemma_replace_past(tail, rest, pattern, with);
    reveal_with_fuel(replace_all, 3);
    assert(replace_all(s, pattern, with) == seq![s[0]] + replace_all(t, pattern, with));
    assert(replace_all(t, pattern, with) == seq![t[0]] + replace_all(t.skip(1), pattern, with));
    assert(seq![s[0]] + (seq![t[0]] + (tail + replace_all(rest, pattern, with))) =~= v
        + replace_all(rest, pattern, with));
}

/// The variable itself in front is replaced.
proof fn lemma_replace_front(v: Seq<char>, rest: Seq<char>, with: Seq<char>)
    requires
        v.len() > 0,
    ensures
        replace_all(v + rest, v, with) == with + replace_all(rest, v, with),
{
    let s = v + rest;
    assert(s.subrange(0, v.len() as int) =~= v);
    assert(s.skip(v.len() as int) =~= rest);
}

/// The variables of two tags differ in a character that both have.
proof fn lemma_tags_differ(n: nat, m: nat) -> (at: int)
    requires
        n != m,
    ensures
        0 <= at < tag_variable(n).len(),
        at < tag_variable(m).len(),
        tag_variable(n)[at] != tag_variable(m)[at],
{
    let a = tag_variable(n);
    let b = tag_variable(m);
    lemma_tags_apart(n, m);
    lemma_tags_apart(m, n);
    if a.len() <= b.len() {
        assert(!occurs_at(b, a, 0));
        let part = b.subrange(0, a.len() as int);
        if forall|i: int| 0 <= i < a.len() ==> a[i] == part[i] {
            assert(part =~= a);
        }
        choose|i: int| 0 <= i < a.len() && a[i] != #[trigger] part[i]
    } else {
        assert(!occurs_at(a, b, 0));
        let part = a.subrange(0, b.len() as int);
        if forall|i: int| 0 <= i < b.len() ==> b[i] == part[i] {
            assert(part =~= b);
        }
        choose|i: int| 0 <= i < b.len() && b[i] != #[trigger] part[i]
    }
}

/// A plain text in front is passed over by all tags.
proof fn lemma_tags_past(front: Seq<char>, rest: Seq<char>, tags: Seq<Seq<char>>)
    requires
        is_plain(front),
    ensures
        with_tags(front + rest, tags) == front + with_tags(rest, tags),
    decreases tags.len(),
{
    if tags.len() > 0 {
        lemma_tags_past(front, rest, tags.drop_last());
        lemma_variables_braced();
        assert(braced(tag_variable(tags.len())));
        lemma_replace_past(
            front,
            with_tags(rest, tags.drop_last()),
            tag_variable(tags.len()),
            trim(tags.last()),
        );
    }
}

/// A variable of no tag in front is passed over by all tags.
proof fn lemma_tags_past_variable(v: Seq<char>, rest: Seq<char>, tags: Seq<Seq<char>>)
    requires
        v == "{{public_ip}}"@ || v == "{{ntfy_topic}}"@ || v == "{{ntfy_title}}"@ || v
            == "{{ntfy_message}}"@,
    ensures
        with_tags(v + rest, tags) == v + with_tags(rest, tags),
    decreases tags.len(),
{
    if tags.len() > 0 {
        lemma_tags_past_variable(v, rest, tags.drop_last());
        let at = lemma_fixed_differ(v, tags.len());
        lemma_variables_braced();
        lemma_variable_lengths();
        assert(braced(tag_variable(tags.len())));
        lemma_replace_past_variable(
            v,
            with_tags(rest, tags.drop_last()),
            tag_variable(tags.len()),
            trim(tags.last()),
            at,
        );
    }
}

/// A variable of no tag differs from that of a tag.
proof fn lemma_fixed_differ(v: Seq<char>, n: nat) -> (at: int)
    requires
        v == "{{public_ip}}"@ || v == "{{ntfy_topic}}"@ || v == "{{ntfy_title}}"@ || v
            == "{{ntfy_message}}"@,
    ensures
        0 <= at < v.len(),
        at < tag_variable(n).len(),
        v[at] != tag_variable(n)[at],
{
    reveal_strlit("{{public_ip}}");
    reveal_strlit("{{ntfy_topic}}");
    reveal_strlit("{{ntfy_title}}");
    reveal_strlit("{{ntfy_message}}");
    reveal_strlit("{{ntfy_tags");
    let tag = tag_variable(n);
    assert(tag[2] == 'n' && tag[7] == 't' && tag[8] == 'a');
    if v == "{{public_ip}}"@ {
        2
    } else if v == "{{ntfy_message}}"@ {
        7
    } else {
        8
    }
}

/// The variable of a tag in front stays where the tag is blank or is not there, and
/// becomes the tag otherwise.
proof fn lemma_tag_in_front(number: nat, rest: Seq<char>, tags: Seq<Seq<char>>)
    requires
        1 <= number,
        number <= tags.len() ==> is_plain(trim(tags[number - 1])),
    ensures
        with_tags(tag_variable(number) + rest, tags) == (if number <= tags.len() && trim(
            tags[number - 1],
        ).len() > 0 {
            trim(tags[number - 1])
        } else {
            tag_variable(number)
        }) + with_tags(rest, tags),
    decreases tags.len(),
{
    lemma_variables_braced();
    lemma_variable_lengths();
    assert(braced(tag_variable(number)));
    if tags.len() > 0 {
        lemma_tag_in_front(number, rest, tags.drop_last());
        let before = with_tags(rest, tags.drop_last());
        let variable = tag_variable(tags.len());
        let tag = trim(tags.last());
        assert(braced(variable));
        if number == tags.len() {
            lemma_replace_front(variable, before, tag);
        } else if number < tags.len() && trim(tags[number - 1]).len() > 0 {
            lemma_replace_past(trim(tags[number - 1]), before, variable, tag);
        } else {
            let at = lemma_tags_differ(number, tags.len());
            lemma_replace_past_variable(tag_variable(number), before, variable, tag, at);
        }
    }
}

/// What stands before the first opening brace of a text stays as it is, and what
/// stands behind it is replaced as if it stood alone.
pub proof fn law_plain_text_before_is_kept(
    front: Seq<char>,
    rest: Seq<char>,
    context: Option<NtfyContextView>,
    public_ip: Option<Seq<char>>,
)
    requires
        is_plain(front),
    ensures
        substituted(front + rest, context, public_ip) == front + substituted(
            rest,
            context,
            public_ip,
        ),
{
    lemma_variables_braced();
    let s = match public_ip {
        Some(ip) => {
            lemma_replace_past(front, rest, "{{public_ip}}"@, ip);
            replace_all(rest, "{{public_ip}}"@, ip)
        },
        None => rest,
    };
    if let Some(c) = context {
        lemma_context_past(front, s, c);
    }
}

/// A plain text in front is passed over by a message.
proof fn lemma_context_past(front: Seq<char>, rest: Seq<char>, c: NtfyContextView)
    requires
        is_plain(front),
    ensures
        with_context(front + rest, c) == front + with_context(rest, c),
{
    lemma_variables_braced();
    lemma_replace_past(front, rest, "{{ntfy_topic}}"@, c.topic);
    let topic = replace_all(rest, "{{ntfy_topic}}"@, c.topic);
    lemma_replace_past(front, topic, "{{ntfy_title}}"@, c.title);
    let title = replace_all(topic, "{{ntfy_title}}"@, c.title);
    lemma_replace_past(front, title, "{{ntfy_message}}"@, c.message);
    let message = replace_all(title, "{{ntfy_message}}"@, c.message);
    lemma_tags_past(front, message, split(c.tags, ','));
}

/// `{{public_ip}}` becomes the address wherever it stands, and what follows is
/// replaced as if it stood alone. Without an address it stays.
pub proof fn law_public_ip_is_quoted_in_place(
    rest: Seq<char>,
    context: Option<NtfyContextView>,
    public_ip: Option<Seq<char>>,
)
    requires
        public_ip matches Some(ip) ==> is_plain(ip),
    ensures
        substituted("{{public_ip}}"@ + rest, context, public_ip) == (match public_ip {
            Some(ip) => ip,
            None => "{{public_ip}}"@,
        }) + substituted(rest, context, public_ip),
{
    let v = "{{public_ip}}"@;
    lemma_variables_braced();
    lemma_variable_lengths();
    match public_ip {
        Some(ip) => {
            lemma_replace_front(v, rest, ip);
            if let Some(c) = context {
                lemma_context_past(ip, replace_all(rest, v, ip), c);
            }
        },
        None => {
            if let Some(c) = context {
                reveal_strlit("{{public_ip}}");
                reveal_strlit("{{ntfy_topic}}");
                reveal_strlit("{{ntfy_title}}");
                reveal_strlit("{{ntfy_message}}");
                lemma_replace_past_variable(v, rest, "{{ntfy_topic}}"@, c.topic, 2);
                let topic = replace_all(rest, "{{ntfy_topic}}"@, c.topic);
                lemma_replace_past_variable(v, topic, "{{ntfy_title}}"@, c.title, 2);
                let title = replace_all(topic, "{{ntfy_title}}"@, c.title);
                lemma_replace_past_variable(v, title, "{{ntfy_message}}"@, c.message, 2);
                let message = replace_all(title, "{{ntfy_message}}"@, c.message);
                lemma_tags_past_variable(v, message, split(c.tags, ','));
            }
        },
    }
}

/// The address does not touch a variable of a message.
proof fn lemma_address_past(v: Seq<char>, rest: Seq<char>, public_ip: Option<Seq<char>>)
    requires
        braced(v),
        v.len() > 2,
        v[2] == 'n',
    ensures
        substituted(v + rest, None, public_ip) == v + substituted(rest, None, public_ip),
{
    if let Some(ip) = public_ip {
        reveal_strlit("{{public_ip}}");
        lemma_variables_braced();
        lemma_replace_past_variable(v, rest, "{{public_ip}}"@, ip, 2);
    }
}

/// `{{ntfy_topic}}` becomes the topic of the message wherever it stands, and what
/// follows is replaced as if it stood alone. Without a message it stays.
pub proof fn law_topic_is_quoted_in_place(
    rest: Seq<char>,
    context: Option<NtfyContextView>,
    public_ip: Option<Seq<char>>,
)
    requires
        context matches Some(c) ==> is_plain(c.topic),
    ensures
        substituted("{{ntfy_topic}}"@ + rest, context, public_ip) == (match context {
            Some(c) => c.topic,
            None => "{{ntfy_topic}}"@,
        }) + substituted(rest, context, public_ip),
{
    let v = "{{ntfy_topic}}"@;
    lemma_variables_braced();
    lemma_variable_lengths();
    reveal_strlit("{{ntfy_topic}}");
    lemma_address_past(v, rest, public_ip);
    if let Some(c) = context {
        let s = substituted(rest, None, public_ip);
        lemma_replace_front(v, s, c.topic);
        let topic = replace_all(s, v, c.topic);
        lemma_replace_past(c.topic, topic, "{{ntfy_title}}"@, c.title);
        let title = replace_all(topic, "{{ntfy_title}}"@, c.title);
        lemma_replace_past(c.topic, title, "{{ntfy_message}}"@, c.message);
        let message = replace_all(title, "{{ntfy_message}}"@, c.message);
        lemma_tags_past(c.topic, message, split(c.tags, ','));
    }
}

/// `{{ntfy_title}}` becomes the title of the message wherever it stands, and what
/// follows is replaced as if it stood alone. Without a message it stays.
pub proof fn law_title_is_quoted_in_place(
    rest: Seq<char>,
    context: Option<NtfyContextView>,
    public_ip: Option<Seq<char>>,
)
    requires
        context matches Some(c) ==> is_plain(c.title),
    ensures
        substituted("{{ntfy_title}}"@ + rest, context, public_ip) == (match context {
            Some(c) => c.title,
            None => "{{ntfy_title}}"@,
        }) + substituted(rest, context, public_ip),
{
    let v = "{{ntfy_title}}"@;
    lemma_variables_braced();
    lemma_variable_lengths();
    reveal_strlit("{{ntfy_topic}}");
    reveal_strlit("{{ntfy_title}}");
    lemma_address_past(v, rest, public_ip);
    if let Some(c) = context {
        let s = substituted(rest, None, public_ip);
        lemma_replace_past_variable(v, s, "{{ntfy_topic}}"@, c.topic, 8);
        let topic = replace_all(s, "{{ntfy_topic}}"@, c.topic);
        lemma_replace_front(v, topic, c.title);
        let title = replace_all(topic, v, c.title);
        lemma_replace_past(c.title, title, "{{ntfy_message}}"@, c.message);
        let message = replace_all(title, "{{ntfy_message}}"@, c.message);
        lemma_tags_past(c.title, message, split(c.tags, ','));
    }
}

/// `{{ntfy_message}}` becomes the body of the message wherever it stands, and what
/// follows is replaced as if it stood alone. Without a message it stays.
pub proof fn law_message_is_quoted_in_place(
    rest: Seq<char>,
    context: Option<NtfyContextView>,
    public_ip: Option<Seq<char>>,
)
    requires
        context matches Some(c) ==> is_plain(c.message),
    ensures
        substituted("{{ntfy_message}}"@ + rest, context, public_ip) == (match context {
            Some(c) => c.message,
            None => "{{ntfy_message}}"@,
        }) + substituted(rest, context, public_ip),
{
    let v = "{{ntfy_message}}"@;
    lemma_variables_braced();
    lemma_variable_lengths();
    reveal_strlit("{{ntfy_topic}}");
    reveal_strlit("{{ntfy_title}}");
    reveal_strlit("{{ntfy_message}}");
    lemma_address_past(v, rest, public_ip);
    if let Some(c) = context {
        let s = substituted(rest, None, public_ip);
        lemma_replace_past_variable(v, s, "{{ntfy_topic}}"@, c.topic, 7);
        let topic = replace_all(s, "{{ntfy_topic}}"@, c.topic);
        lemma_replace_past_variable(v, topic, "{{ntfy_title}}"@, c.title, 7);
        let title = replace_all(topic, "{{ntfy_title}}"@, c.title);
        lemma_replace_front(v, title, c.message);
        let message = replace_all(title, v, c.message);
        lemma_tags_past(c.message, message, split(c.tags, ','));
    }
}

/// The tags of a message are what stands between its commas. `{{ntfy_tags1}}` becomes
/// the first of them wherever it stands, `{{ntfy_tags2}}` the second, and so on,
/// without the blanks around it; what follows is replaced as if it stood alone. The
/// variable of a tag that is blank or is not there stays.
pub proof fn law_tag_is_quoted_in_place(
    parts: Seq<Seq<char>>,
    number: nat,
    rest: Seq<char>,
    context: NtfyContextView,
    public_ip: Option<Seq<char>>,
)
    requires
        parts.len() > 0,
        forall|k: int, i: int|
            0 <= k < parts.len() && 0 <= i < parts[k].len() ==> #[trigger] parts[k][i] != ',',
        context.tags == join(parts, seq![',']),
        1 <= number,
        number <= parts.len() ==> is_plain(parts[number - 1]),
    ensures
        substituted("{{ntfy_tags"@ + decimal(number) + "}}"@ + rest, Some(context), public_ip)
            == (if number <= parts.len() && trim(parts[number - 1]).len() > 0 {
            trim(parts[number - 1])
        } else {
            "{{ntfy_tags"@ + decimal(number) + "}}"@
        }) + substituted(rest, Some(context), public_ip),
{
    let v = tag_variable(number);
    let c = context;
    law_joined_parts_come_back(parts, ',');
    if number <= parts.len() {
        let part = parts[number - 1];
        let (a, b) = law_trim_takes_blanks(part);
        assert(is_plain(trim(part))) by {
            assert forall|i: int| 0 <= i < trim(part).len() implies #[trigger] trim(part)[i]
                != '{' by {
                assert(trim(part)[i] == part[a + i]);
            }
        }
    }
    lemma_variables_braced();
    lemma_variable_lengths();
    reveal_strlit("{{ntfy_tags");
    assert(braced(v));
    assert(v[2] == 'n' && v[7] == 't' && v[8] == 'a');
    reveal_strlit("{{ntfy_topic}}");
    reveal_strlit("{{ntfy_title}}");
    reveal_strlit("{{ntfy_message}}");
    lemma_address_past(v, rest, public_ip);
    let s = substituted(rest, None, public_ip);
    lemma_replace_past_variable(v, s, "{{ntfy_topic}}"@, c.topic, 8);
    let topic = replace_all(s, "{{ntfy_topic}}"@, c.topic);
    lemma_replace_past_variable(v, topic, "{{ntfy_title}}"@, c.title, 8);
    let title = replace_all(topic, "{{ntfy_title}}"@, c.title);
    lemma_replace_past_variable(v, title, "{{ntfy_message}}"@, c.message, 7);
    let message = replace_all(title, "{{ntfy_message}}"@, c.message);
    lemma_tag_in_front(number, message, parts);
}

/// Without a message, the variable of a tag stays.
pub proof fn law_tag_without_message_stays(
    number: nat,
    rest: Seq<char>,
    public_ip: Option<Seq<char>>,
)
    ensures
        substituted("{{ntfy_tags"@ + decimal(number) + "}}"@ + rest, None, public_ip)
            == "{{ntfy_tags"@ + decimal(number) + "}}"@ + substituted(rest, None, public_ip),
{
    lemma_variables_braced();
    lemma_variable_lengths();
    reveal_strlit("{{ntfy_tags");
    assert(braced(tag_variable(number)));
    lemma_address_past(tag_variable(number), rest, public_ip);
}

/// Whether tags are these parts with commas between them, and the part at an index is
/// not blank.
pub open spec fn is_tag(tags: Seq<char>, parts: Seq<Seq<char>>, k: int) -> bool {
    &&& 0 <= k < parts.len()
    &&& tags == join(parts, seq![','])
    &&& trim(parts[k]).len() > 0
    &&& forall|j: int, i: int|
        0 <= j < parts.len() && 0 <= i < parts[j].len() ==> #[trigger] parts[j][i] != ','
}

/// How a text of a task reads when its action is run, or its notification is sent. A
/// text without two opening braces in a row reads as it is written. One that is a
/// variable reads as the value, and in one with a variable between two texts without
/// braces the value stands in the place of the variable.
pub open spec fn reads_as(
    written: Seq<char>,
    read: Seq<char>,
    context: Option<NtfyContextView>,
    public_ip: Option<Seq<char>>,
) -> bool {
    &&& !stands_in("{{"@, written) ==> read == written
    &&& public_ip matches Some(ip) ==> (written == "{{public_ip}}"@ && !stands_in("{{"@, ip) ==> read
        == ip)
    &&& context matches Some(c) ==> {
        &&& written == "{{ntfy_topic}}"@ && !stands_in("{{"@, c.topic) ==> read == c.topic
        &&& written == "{{ntfy_title}}"@ && !stands_in("{{"@, c.title) ==> read == c.title
        &&& written == "{{ntfy_message}}"@ && !stands_in("{{"@, c.message) ==> read == c.message
        &&& forall|k: int, parts: Seq<Seq<char>>|
            written == "{{ntfy_tags"@ + decimal((k + 1) as nat) + "}}"@ && is_tag(
                c.tags,
                parts,
                k,
            ) && !stands_in("{{"@, #[trigger] trim(parts[k])) ==> read == trim(parts[k])
    }
    &&& forall|a: Seq<char>, b: Seq<char>, ip: Seq<char>|
        written == #[trigger] (a + "{{public_ip}}"@ + b) && public_ip == Some(ip) && is_plain(a)
            && is_plain(b) && is_plain(ip) ==> read == #[trigger] (a + ip + b)
    &&& forall|a: Seq<char>, b: Seq<char>, c: NtfyContextView|
        written == #[trigger] (a + "{{ntfy_topic}}"@ + b) && context == Some(c) && is_plain(a)
            && is_plain(b) && is_plain(c.topic) ==> read == #[trigger] (a + c.topic + b)
    &&& forall|a: Seq<char>, b: Seq<char>, c: NtfyContextView|
        written == #[trigger] (a + "{{ntfy_title}}"@ + b) && context == Some(c) && is_plain(a)
            && is_plain(b) && is_plain(c.title) ==> read == #[trigger] (a + c.title + b)
    &&& forall|a: Seq<char>, b: Seq<char>, c: NtfyContextView|
        written == #[trigger] (a + "{{ntfy_message}}"@ + b) && context == Some(c) && is_plain(a)
            && is_plain(b) && is_plain(c.message) ==> read == #[trigger] (a + c.message + b)
}

/// Replacing the variables of a text makes it read as it should.
pub proof fn law_variables_are_read(
    s: Seq<char>,
    context: Option<NtfyContextView>,
    public_ip: Option<Seq<char>>,
)
    ensures
        reads_as(s, substituted(s, context, public_ip), context, public_ip),
{
    let read = substituted(s, context, public_ip);
    law_containing_is_standing_in(s, "{{"@);
    if !stands_in("{{"@, s) {
        law_plain_text_is_kept(s, context, public_ip);
    }
    if let Some(ip) = public_ip {
        law_containing_is_standing_in(ip, "{{"@);
        if !stands_in("{{"@, ip) {
            law_public_ip_is_quoted(context, ip);
        }
    }
    if let Some(c) = context {
        law_containing_is_standing_in(c.topic, "{{"@);
        law_containing_is_standing_in(c.title, "{{"@);
        law_containing_is_standing_in(c.message, "{{"@);
        if !stands_in("{{"@, c.topic) {
            law_topic_is_quoted(c, public_ip);
        }
        if !stands_in("{{"@, c.title) {
            law_title_is_quoted(c, public_ip);
        }
        if !stands_in("{{"@, c.message) {
            law_message_is_quoted(c, public_ip);
        }
        assert forall|k: int, parts: Seq<Seq<char>>|
            s == "{{ntfy_tags"@ + decimal((k + 1) as nat) + "}}"@ && is_tag(c.tags, parts, k)
                && !stands_in("{{"@, #[trigger] trim(parts[k])) implies read == trim(parts[k]) by {
            law_joined_parts_come_back(parts, ',');
            law_containing_is_standing_in(trim(parts[k]), "{{"@);
            law_tag_is_quoted((k + 1) as nat, c, public_ip);
        }
    }
    assert forall|a: Seq<char>, b: Seq<char>, ip: Seq<char>|
        s == #[trigger] (a + "{{public_ip}}"@ + b) && public_ip == Some(ip) && is_plain(a)
            && is_plain(b) && is_plain(ip) implies read == #[trigger] (a + ip + b) by {
        law_public_ip_is_quoted_in_place(b, context, public_ip);
        lemma_between(a, "{{public_ip}}"@, b, ip, context, public_ip);
    }
    assert forall|a: Seq<char>, b: Seq<char>, c: NtfyContextView|
        s == #[trigger] (a + "{{ntfy_topic}}"@ + b) && context == Some(c) && is_plain(a)
            && is_plain(b) && is_plain(c.topic) implies read == #[trigger] (a + c.topic + b) by {
        law_topic_is_quoted_in_place(b, context, public_ip);
        lemma_between(a, "{{ntfy_topic}}"@, b, c.topic, context, public_ip);
    }
    assert forall|a: Seq<char>, b: Seq<char>, c: NtfyContextView|
        s == #[trigger] (a + "{{ntfy_title}}"@ + b) && context == Some(c) && is_plain(a)
            && is_plain(b) && is_plain(c.title) implies read == #[trigger] (a + c.title + b) by {
        law_title_is_quoted_in_place(b, context, public_ip);
        lemma_between(a, "{{ntfy_title}}"@, b, c.title, context, public_ip);
    }
    assert forall|a: Seq<char>, b: Seq<char>, c: NtfyContextView|
        s == #[trigger] (a + "{{ntfy_message}}"@ + b) && context == Some(c) && is_plain(a)
            && is_plain(b) && is_plain(c.message) implies read == #[trigger] (a + c.message
        + b) by {
        law_message_is_quoted_in_place(b, context, public_ip);
        lemma_between(a, "{{ntfy_message}}"@, b, c.message, context, public_ip);
    }
}

/// An empty text stays empty.
proof fn lemma_nothing_is_nothing(context: Option<NtfyContextView>, public_ip: Option<Seq<char>>)
    ensures
        substituted(Seq::<char>::empty(), context, public_ip) == Seq::<char>::empty(),
{
    reveal_strlit("{{");
    law_plain_text_is_kept(Seq::<char>::empty(), context, public_ip);
}

/// A variable that becomes its value in front of a text does so between two texts.
proof fn lemma_between(
    a: Seq<char>,
    v: Seq<char>,
    b: Seq<char>,
    value: Seq<char>,
    context: Option<NtfyContextView>,
    public_ip: Option<Seq<char>>,
)
    requires
        is_plain(a),
        is_plain(b),
        substituted(v + b, context, public_ip) == value + substituted(b, context, public_ip),
    ensures
        substituted(a + v + b, context, public_ip) == a + value + b,
{
    let none = Seq::<char>::empty();
    lemma_nothing_is_nothing(context, public_ip);
    law_plain_text_before_is_kept(b, none, context, public_ip);
    assert(b + none =~= b);
    law_plain_text_before_is_kept(a, v + b, context, public_ip);
    assert(a + (v + b) =~= a + v + b);
    assert(a + (value + b) =~= a + value + b);
}

} // verus!
