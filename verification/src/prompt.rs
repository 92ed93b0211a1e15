//! Prompt fragments: collection, assembly, and validation.

use vstd::prelude::*;

verus! {

/// ASCII control characters: `0x00`-`0x1F` and DEL (`0x7F`).
pub open spec fn is_control_char(c: char) -> bool {
    (c as u32) < 0x20 || (c as u32) == 0x7F
}

/// A prompt is acceptable exactly when it holds no ASCII control character.
pub open spec fn prompt_ok(s: Seq<char>) -> bool {
    forall|i: int| 0 <= i < s.len() ==> !is_control_char(#[trigger] s[i])
}

/// One user-supplied piece of the prompt: a color code and a name,
/// contributed to the assembled prompt as `color + name + " "`.
pub struct PromptFragment {
    pub color: String,
    pub name: String,
}

impl PromptFragment {
    /// The text this fragment contributes to the assembled prompt.
    pub open spec fn text(self) -> Seq<char> {
        self.color@ + self.name@ + seq![' ']
    }

    /// Both parts are free of ASCII control characters.
    pub open spec fn ok(self) -> bool {
        prompt_ok(self.color@) && prompt_ok(self.name@)
    }
}

/// The fixed two-character marker `\$` that ends every assembled prompt,
/// whatever the target shell.
pub open spec fn prompt_marker() -> Seq<char> {
    seq!['\\', '$']
}

/// Text contributed by a sequence of fragments, in input order.
pub open spec fn assembled_fragments(frags: Seq<PromptFragment>) -> Seq<char>
    decreases frags.len(),
{
    if frags.len() == 0 {
        Seq::<char>::empty()
    } else {
        assembled_fragments(frags.drop_last()) + frags.last().text()
    }
}

/// The complete assembled prompt: every fragment's text in order, then `\$`.
pub open spec fn assembled_prompt(frags: Seq<PromptFragment>) -> Seq<char> {
    assembled_fragments(frags) + prompt_marker()
}

/// Concatenates `color + name + " "` for each fragment in input order and
/// appends the trailing `\$` marker.
pub fn assemble_prompt(frags: &Vec<PromptFragment>) -> (r: String)
    ensures
        r@ == assembled_prompt(frags@),
{
    let mut acc = String::new();
    let n = frags.len();
    let mut i: usize = 0;
    while i < n
        invariant
            n == frags@.len(),
            i <= n,
            acc@ == assembled_fragments(frags@.take(i as int)),
        decreases n - i,
    {
        acc.append(frags[i].color.as_str());
        acc.append(frags[i].name.as_str());
        acc.append(" ");
        proof {
            reveal_strlit(" ");
            assert(" "@ =~= seq![' ']);
            assert(frags@.take(i as int + 1).drop_last() =~= frags@.take(i as int));
            assert(acc@ =~= assembled_fragments(frags@.take(i as int + 1)));
        }
        i += 1;
    }
    proof {
        assert(frags@.take(n as int) =~= frags@);
        reveal_strlit("\\$");
        assert("\\$"@ =~= prompt_marker());
    }
    acc.append("\\$");
    acc
}

/// The characters that trimming an input line removes: Unicode white space,
/// listed by code point.
pub open spec fn is_whitespace_char(c: char) -> bool {
    let u = c as u32;
    (0x09 <= u && u <= 0x0D) || u == 0x20 || u == 0x85 || u == 0xA0 || u == 0x1680 || (0x2000
        <= u && u <= 0x200A) || u == 0x2028 || u == 0x2029 || u == 0x202F || u == 0x205F || u
        == 0x3000
}

/// `s` with its leading white space removed.
pub open spec fn trim_front(s: Seq<char>) -> Seq<char>
    decreases s.len(),
{
    if s.len() > 0 && is_whitespace_char(s[0]) {
        trim_front(s.drop_first())
    } else {
        s
    }
}

/// `s` with its trailing white space removed.
pub open spec fn trim_back(s: Seq<char>) -> Seq<char>
    decreases s.len(),
{
    if s.len() > 0 && is_whitespace_char(s.last()) {
        trim_back(s.drop_last())
    } else {
        s
    }
}

/// `s` with leading and trailing white space removed, as an input line is
/// trimmed before it becomes part of a fragment.
pub open spec fn trimmed_view(s: Seq<char>) -> Seq<char> {
    trim_back(trim_front(s))
}

/// Whether `c` is Unicode white space, decided by its code point.
fn char_is_whitespace(c: char) -> (r: bool)
    ensures
        r == is_whitespace_char(c),
{
    let u = c as u32;
    (0x09 <= u && u <= 0x0D) || u == 0x20 || u == 0x85 || u == 0xA0 || u == 0x1680 || (0x2000 <= u
        && u <= 0x200A) || u == 0x2028 || u == 0x2029 || u == 0x202F || u == 0x205F || u == 0x3000
}

/// Dropping `k` leading white-space characters, none of which is followed by
/// more white space at position `k`, is what `trim_front` does.
proof fn lemma_trim_front_is_subrange(s: Seq<char>, k: int)
    requires
        0 <= k <= s.len(),
        forall|j: int| 0 <= j < k ==> is_whitespace_char(#[trigger] s[j]),
        k == s.len() || !is_whitespace_char(s[k]),
    ensures
        trim_front(s) == s.subrange(k, s.len() as int),
    decreases k,
{
    if k == 0 {
        assert(s.subrange(0, s.len() as int) =~= s);
    } else {
        let t = s.drop_first();
        assert(forall|j: int| 0 <= j < k - 1 ==> is_whitespace_char(#[trigger] t[j]));
        lemma_trim_front_is_subrange(t, k - 1);
        assert(t.subrange(k - 1, t.len() as int) =~= s.subrange(k, s.len() as int));
    }
}

/// Dropping all trailing white space after position `e`, where position
/// `e - 1` (if any) is not white space, is what `trim_back` does.
proof fn lemma_trim_back_is_subrange(s: Seq<char>, e: int)
    requires
        0 <= e <= s.len(),
        forall|j: int| e <= j < s.len() ==> is_whitespace_char(#[trigger] s[j]),
        e == 0 || !is_whitespace_char(s[e - 1]),
    ensures
        trim_back(s) == s.subrange(0, e),
    decreases s.len() - e,
{
    if e == s.len() {
        assert(s.subrange(0, s.len() as int) =~= s);
    } else {
        let t = s.drop_last();
        assert(forall|j: int| e <= j < t.len() ==> is_whitespace_char(#[trigger] t[j]));
        lemma_trim_back_is_subrange(t, e);
        assert(t.subrange(0, e) =~= s.subrange(0, e));
    }
}

/// Removes leading and trailing white space, as the collector trims each
/// line read from standard input.
pub fn trimmed(s: &str) -> (r: String)
    ensures
        r@ == trimmed_view(s@),
{
    let n = s.unicode_len();
    let mut start: usize = 0;
    while start < n && char_is_whitespace(s.get_char(start))
        invariant
            n == s@.len(),
            start <= n,
            forall|j: int| 0 <= j < start ==> is_whitespace_char(#[trigger] s@[j]),
        decreases n - start,
    {
        start += 1;
    }
    let mut end: usize = n;
    while end > start && char_is_whitespace(s.get_char(end - 1))
        invariant
            n == s@.len(),
            start <= end <= n,
            forall|j: int| end <= j < n ==> is_whitespace_char(#[trigger] s@[j]),
        decreases end,
    {
        end -= 1;
    }
    let out = s.substring_char(start, end);
    proof {
        lemma_trim_front_is_subrange(s@, start as int);
        let t = s@.subrange(start as int, n as int);
        assert(forall|j: int| end - start <= j < t.len() ==> is_whitespace_char(#[trigger] t[j]));
        lemma_trim_back_is_subrange(t, end - start);
        assert(t.subrange(0, end - start) =~= s@.subrange(start as int, end as int));
    }
    out.to_owned()
}

impl PromptFragment {
    /// Builds a fragment from the two raw lines the collector read, trimming
    /// each of leading and trailing white space.
    pub fn from_input(name_line: &str, color_line: &str) -> (f: PromptFragment)
        ensures
            f.name@ == trimmed_view(name_line@),
            f.color@ == trimmed_view(color_line@),
    {
        PromptFragment { color: trimmed(color_line), name: trimmed(name_line) }
    }
}

/// The failure this library itself detects: the assembled prompt held an
/// ASCII control character.
#[derive(Clone, Copy, PartialEq, Eq, Structural, Debug)]
pub enum PromptError {
    ControlCharacters,
}

impl PromptError {
    /// The message reported for this failure.
    pub fn message(&self) -> (r: String)
        ensures
            r@ == "The prompt contains invalid characters."@,
    {
        String::from_str("The prompt contains invalid characters.")
    }
}

/// Accepts exactly the strings free of ASCII control characters.
pub fn validate_prompt(prompt: &str) -> (r: Result<(), PromptError>)
    ensures
        r is Ok <==> prompt_ok(prompt@),
        r is Err ==> r == Result::<(), PromptError>::Err(PromptError::ControlCharacters),
{
    let n = prompt.unicode_len();
    let mut i: usize = 0;
    while i < n
        invariant
            n == prompt@.len(),
            i <= n,
            forall|j: int| 0 <= j < i ==> !is_control_char(#[trigger] prompt@[j]),
        decreases n - i,
    {
        let c = prompt.get_char(i);
        let u = c as u32;
        if u < 0x20 || u == 0x7F {
            return Err(PromptError::ControlCharacters);
        }
        i += 1;
    }
    Ok(())
}

/// A concatenation is free of control characters exactly when both parts are.
pub proof fn lemma_prompt_ok_concat(a: Seq<char>, b: Seq<char>)
    ensures
        prompt_ok(a + b) <==> (prompt_ok(a) && prompt_ok(b)),
{
    if prompt_ok(a + b) {
        assert forall|i: int| 0 <= i < a.len() implies !is_control_char(#[trigger] a[i]) by {
            assert((a + b)[i] == a[i]);
        }
        assert forall|i: int| 0 <= i < b.len() implies !is_control_char(#[trigger] b[i]) by {
            assert((a + b)[a.len() + i] == b[i]);
        }
    }
    if prompt_ok(a) && prompt_ok(b) {
        assert forall|i: int| 0 <= i < (a + b).len() implies !is_control_char(
            #[trigger] (a + b)[i],
        ) by {
            if i < a.len() {
                assert((a + b)[i] == a[i]);
            } else {
                assert((a + b)[i] == b[i - a.len()]);
            }
        }
    }
}

proof fn lemma_fragments_ok(frags: Seq<PromptFragment>)
    ensures
        prompt_ok(assembled_fragments(frags)) <==> (forall|k: int|
            0 <= k < frags.len() ==> (#[trigger] frags[k]).ok()),
    decreases frags.len(),
{
    if frags.len() == 0 {
    } else {
        let rest = frags.drop_last();
        let f = frags.last();
        lemma_fragments_ok(rest);
        lemma_prompt_ok_concat(assembled_fragments(rest), f.text());
        lemma_prompt_ok_concat(f.color@ + f.name@, seq![' ']);
        lemma_prompt_ok_concat(f.color@, f.name@);
        assert(prompt_ok(seq![' ']));
        if prompt_ok(assembled_fragments(frags)) {
            assert forall|k: int| 0 <= k < frags.len() implies (#[trigger] frags[k]).ok() by {
                if k < frags.len() - 1 {
                    assert(rest[k] == frags[k]);
                } else {
                    assert(frags[k] == f);
                }
            }
        }
        if forall|k: int| 0 <= k < frags.len() ==> (#[trigger] frags[k]).ok() {
            assert forall|k: int| 0 <= k < rest.len() implies (#[trigger] rest[k]).ok() by {
                assert(rest[k] == frags[k]);
            }
        }
    }
}

/// The validator accepts the assembled prompt exactly when every fragment is
/// free of control characters: clean fragments always pass, and a single
/// control character in any fragment's color or name is rejected.
pub proof fn lemma_assembled_ok_iff_fragments_ok(frags: Seq<PromptFragment>)
    ensures
        prompt_ok(assembled_prompt(frags)) <==> (forall|k: int|
            0 <= k < frags.len() ==> (#[trigger] frags[k]).ok()),
{
    lemma_fragments_ok(frags);
    lemma_prompt_ok_concat(assembled_fragments(frags), prompt_marker());
    assert(prompt_ok(prompt_marker()));
}

proof fn lemma_fragments_depend_only_on_text(f1: Seq<PromptFragment>, f2: Seq<PromptFragment>)
    requires
        f1.len() == f2.len(),
        forall|k: int|
            0 <= k < f1.len() ==> (#[trigger] f1[k]).color@ == f2[k].color@ && f1[k].name@
                == f2[k].name@,
    ensures
        assembled_fragments(f1) == assembled_fragments(f2),
    decreases f1.len(),
{
    if f1.len() == 0 {
    } else {
        let r1 = f1.drop_last();
        let r2 = f2.drop_last();
        assert(forall|k: int|
            0 <= k < r1.len() ==> (#[trigger] r1[k]).color@ == r2[k].color@ && r1[k].name@
                == r2[k].name@);
        lemma_fragments_depend_only_on_text(r1, r2);
        assert(f1.last().text() =~= f2.last().text());
    }
}

/// Assembly depends only on the fragments' text: two runs whose inputs read
/// the same produce the same assembled prompt, so a repeated run appends an
/// identical line, never a deduplicated or altered one.
pub proof fn lemma_assembled_depends_only_on_text(
    f1: Seq<PromptFragment>,
    f2: Seq<PromptFragment>,
)
    requires
        f1.len() == f2.len(),
        forall|k: int|
            0 <= k < f1.len() ==> (#[trigger] f1[k]).color@ == f2[k].color@ && f1[k].name@
                == f2[k].name@,
    ensures
        assembled_prompt(f1) == assembled_prompt(f2),
{
    lemma_fragments_depend_only_on_text(f1, f2);
}

} // verus!
