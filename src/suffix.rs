//! Reading the variant tag at the end of a delivery option's title.
use vstd::prelude::*;
use vstd::string::*;

verus! {

/// `c` is an ASCII digit or an ASCII letter.
pub open spec fn is_ascii_alphanumeric(c: char) -> bool {
    ('0' <= c && c <= '9') || ('A' <= c && c <= 'Z') || ('a' <= c && c <= 'z')
}

/// The tag carried by a title: the title ends in a space, an opening
/// parenthesis, one ASCII alphanumeric character and a closing parenthesis.
/// Only that trailing group counts; earlier parentheses are ignored.
pub open spec fn trailing_tag(title: Seq<char>) -> Option<char> {
    let n = title.len();
    if n >= 4 && title[n - 1] == ')' && title[n - 3] == '(' && title[n - 4] == ' '
        && is_ascii_alphanumeric(title[n - 2]) {
        Some(title[n - 2])
    } else {
        None
    }
}

/// Whatever text precedes it, a title ending in `" (c)"` with `c`
/// alphanumeric carries the tag `c`; parentheses earlier in the title and
/// non-ASCII text do not change that.
pub proof fn lemma_trailing_group_decides(prefix: Seq<char>, c: char)
    requires
        is_ascii_alphanumeric(c),
    ensures
        trailing_tag(prefix + seq![' ', '(', c, ')']) == Some(c),
{
    let t = prefix + seq![' ', '(', c, ')'];
    let n = t.len();
    assert(t[n - 1] == ')' && t[n - 2] == c && t[n - 3] == '(' && t[n - 4] == ' ');
}

fn char_is_ascii_alphanumeric(c: char) -> (r: bool)
    ensures
        r == is_ascii_alphanumeric(c),
{
    ('0' <= c && c <= '9') || ('A' <= c && c <= 'Z') || ('a' <= c && c <= 'z')
}

/// Returns the variant tag at the end of `title`, if there is one.
/// Never fails: any text without a well-formed trailing tag gives `None`.
pub fn extract_variant_suffix(title: &str) -> (r: Option<char>)
    ensures
        r == trailing_tag(title@),
{
    let n = title.unicode_len();
    if n < 4 {
        return None;
    }
    if title.get_char(n - 1) == ')' && title.get_char(n - 3) == '(' && title.get_char(n - 4)
        == ' ' {
        let c = title.get_char(n - 2);
        if char_is_ascii_alphanumeric(c) {
            return Some(c);
        }
    }
    None
}

/// `c` is one of the letters `A`, `B`, `C`, `D`.
pub open spec fn is_letter_a_to_d(c: char) -> bool {
    c == 'A' || c == 'B' || c == 'C' || c == 'D'
}

/// Which tag characters count as variant tags.
pub enum TokenRule {
    /// Every ASCII alphanumeric character is a tag.
    AnyAlphanumeric,
    /// Only the listed characters are tags (each must still be alphanumeric
    /// to appear in a well-formed trailing group).
    OneOf(Vec<char>),
}

impl TokenRule {
    /// The tag character `c` is accepted by this rule.
    pub open spec fn admits(&self, c: char) -> bool {
        match self {
            TokenRule::AnyAlphanumeric => true,
            TokenRule::OneOf(v) => v@.contains(c),
        }
    }

    /// The closed set of tags `A`, `B`, `C`, `D`.
    pub fn letters_a_to_d() -> (r: TokenRule)
        ensures
            forall|c: char| r.admits(c) <==> is_letter_a_to_d(c),
    {
        let r = TokenRule::OneOf(vec!['A', 'B', 'C', 'D']);
        assert forall|c: char| r.admits(c) <==> is_letter_a_to_d(c) by {
            if let TokenRule::OneOf(v) = r {
                if is_letter_a_to_d(c) {
                    if c == 'A' {
                        assert(v@[0] == c);
                    } else if c == 'B' {
                        assert(v@[1] == c);
                    } else if c == 'C' {
                        assert(v@[2] == c);
                    } else {
                        assert(v@[3] == c);
                    }
                }
            }
        }
        r
    }

    /// Whether this rule accepts the tag character `c`.
    pub fn allows(&self, c: char) -> (r: bool)
        ensures
            r == self.admits(c),
    {
        match self {
            TokenRule::AnyAlphanumeric => true,
            TokenRule::OneOf(v) => {
                let mut i: usize = 0;
                while i < v.len()
                    invariant
                        i <= v.len(),
                        *self == TokenRule::OneOf(*v),
                        forall|j: int| 0 <= j < i ==> v@[j] != c,
                    decreases v.len() - i,
                {
                    if v[i] == c {
                        assert(v@[i as int] == c);
                        assert(v@.contains(c));
                        return true;
                    }
                    i += 1;
                }
                false
            },
        }
    }
}

/// The tag of `title` under `rule`: its trailing tag, when the rule accepts it.
pub open spec fn token_under(rule: TokenRule, title: Seq<char>) -> Option<char> {
    match trailing_tag(title) {
        Some(c) => if rule.admits(c) {
            Some(c)
        } else {
            None
        },
        None => None,
    }
}

/// Returns the tag at the end of `title` when `rule` accepts it.
pub fn extract_token(title: &str, rule: &TokenRule) -> (r: Option<char>)
    ensures
        r == token_under(*rule, title@),
{
    match extract_variant_suffix(title) {
        Some(c) => if rule.allows(c) {
            Some(c)
        } else {
            None
        },
        None => None,
    }
}

/// The text of the `A`..`D` tag of `title`: the one tag character, or empty
/// when the title carries no such tag.
pub open spec fn letter_suffix(title: Seq<char>) -> Seq<char> {
    match trailing_tag(title) {
        Some(c) => if is_letter_a_to_d(c) {
            seq![c]
        } else {
            Seq::empty()
        },
        None => Seq::empty(),
    }
}

/// Returns the tag of `title` restricted to the letters `A`..`D`, as text;
/// the empty string when there is none.
pub fn extract_suffix(title: &str) -> (r: &'static str)
    ensures
        r@ == letter_suffix(title@),
{
    let rule = TokenRule::letters_a_to_d();
    match extract_token(title, &rule) {
        Some('A') => {
            proof {
                reveal_strlit("A");
            }
            "A"
        },
        Some('B') => {
            proof {
                reveal_strlit("B");
            }
            "B"
        },
        Some('C') => {
            proof {
                reveal_strlit("C");
            }
            "C"
        },
        Some('D') => {
            proof {
                reveal_strlit("D");
            }
            "D"
        },
        _ => {
            proof {
                reveal_strlit("");
            }
            ""
        },
    }
}

} // verus!
