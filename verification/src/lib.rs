//! Verified core of ghdeck: the rules that turn GitHub's answers into one
//! list of pull requests and issues, newest first, with the status of each.
pub mod client;
pub mod clock;
pub mod command;
pub mod deck;
pub mod feed;
pub mod github;
pub mod keys;
pub mod json;
pub mod markup;
pub mod model;
pub mod order;
pub mod report;
pub mod screen;
pub mod search;
pub mod sync;
pub mod text;
pub mod thread;
pub mod work;

use vstd::prelude::*;

pub use clock::Stamp;
pub use model::{ago, plural, Ci, Item, Kind, Review, State, Tone};

use model::{open_state, ItemView};
use text::{chars_of, is_ascii_alnum, one_of, same_ignoring_ascii_case, strip_front, trimmed};

verus! {

/// Which items a list shows.
#[derive(Debug, Clone, Copy, PartialEq, Eq, Structural)]
pub enum Filter {
    Attention,
    Open,
    Mine,
    Reviews,
    All,
    Authored,
    Mentioned,
}

/// The heading of a filter.
pub open spec fn label_text(f: Filter) -> Seq<char> {
    match f {
        Filter::Attention => "ATTENTION NEEDED"@,
        Filter::Open => "OPEN"@,
        Filter::Mine => "YOURS"@,
        Filter::Reviews => "TO REVIEW"@,
        Filter::All => "ALL"@,
        Filter::Authored => "AUTHORED"@,
        Filter::Mentioned => "MENTIONED"@,
    }
}

/// Whether filter `f` keeps the item `it` for the person `me`.
pub open spec fn keeps_item(f: Filter, it: ItemView, me: Seq<char>) -> bool {
    match f {
        Filter::Attention => it.needs_attention(),
        Filter::Open => open_state(it.state),
        Filter::Mine | Filter::Authored => same_ignoring_ascii_case(it.author, me),
        Filter::Reviews => it.review_requested_of_me,
        Filter::All => true,
        Filter::Mentioned => it.mentioned,
    }
}

impl Filter {
    /// The filters of one's own dashboard, in the order of their number keys.
    pub fn order() -> (r: [Filter; 5])
        ensures
            r@ == seq![Filter::Attention, Filter::Open, Filter::Mine, Filter::Reviews, Filter::All],
    {
        [Filter::Attention, Filter::Open, Filter::Mine, Filter::Reviews, Filter::All]
    }

    /// The filters when looking at someone else's work.
    pub fn person() -> (r: [Filter; 4])
        ensures
            r@ == seq![Filter::All, Filter::Authored, Filter::Mentioned, Filter::Open],
    {
        [Filter::All, Filter::Authored, Filter::Mentioned, Filter::Open]
    }

    /// The heading of the filter, as "ATTENTION NEEDED".
    pub fn label(self) -> (r: &'static str)
        ensures
            r@ == label_text(self),
    {
        match self {
            Filter::Attention => "ATTENTION NEEDED",
            Filter::Open => "OPEN",
            Filter::Mine => "YOURS",
            Filter::Reviews => "TO REVIEW",
            Filter::All => "ALL",
            Filter::Authored => "AUTHORED",
            Filter::Mentioned => "MENTIONED",
        }
    }

    /// Whether the filter keeps `it` when the list is `me`'s.
    pub fn keeps(self, it: &Item, me: &str) -> (r: bool)
        ensures
            r == keeps_item(self, it@, me@),
    {
        match self {
            Filter::Attention => it.needs_attention(),
            Filter::Open => it.is_open(),
            Filter::Mine | Filter::Authored => text::eq_ignore_ascii_case(it.author.as_str(), me),
            Filter::Reviews => it.review_requested_of_me,
            Filter::All => true,
            Filter::Mentioned => it.mentioned,
        }
    }
}

/// The login that `input` names: trimmed, and without leading `@`.
pub open spec fn login_text(input: Seq<char>) -> Seq<char> {
    strip_front(trimmed(input), one_of(seq!['@']))
}

/// GitHub's rule for a login: 1 to 39 ASCII letters, digits and hyphens, not
/// starting or ending with a hyphen.
pub open spec fn valid_login(s: Seq<char>) -> bool {
    &&& 0 < s.len() <= 39
    &&& s[0] != '-'
    &&& s.last() != '-'
    &&& forall|i: int| 0 <= i < s.len() ==> is_ascii_alnum(#[trigger] s[i]) || s[i] == '-'
}

/// The login typed in `input`, if it is one: " @juliohm " gives "juliohm",
/// "x is:open" gives nothing.
pub fn clean_login(input: &str) -> (r: Option<String>)
    ensures
        r is Some <==> valid_login(login_text(input@)),
        r matches Some(s) ==> s@ == login_text(input@),
{
    let cs = chars_of(input);
    let t = text::trim(&cs);
    let mut at: Vec<char> = Vec::new();
    at.push('@');
    assert(at@ =~= seq!['@']);
    let s = text::trim_start_any(&t, &at);
    if s.len() == 0 || s.len() > 39 || s[0] == '-' || s[s.len() - 1] == '-' {
        return None;
    }
    let mut i: usize = 0;
    while i < s.len()
        invariant
            i <= s@.len(),
            s@ == login_text(input@),
            forall|j: int| 0 <= j < i ==> is_ascii_alnum(#[trigger] s@[j]) || s@[j] == '-',
        decreases s@.len() - i,
    {
        if !(text::ascii_alnum(s[i]) || s[i] == '-') {
            assert(!(is_ascii_alnum(s@[i as int]) || s@[i as int] == '-'));
            return None;
        }
        i = i + 1;
    }
    Some(text::string_of(&s))
}

/// Every item that the attention filter keeps, the open filter keeps too:
/// what needs attention is still open.
pub proof fn law_attention_is_open(it: ItemView, me: Seq<char>)
    ensures
        keeps_item(Filter::Attention, it, me) ==> keeps_item(Filter::Open, it, me),
{
}

/// A login that `clean_login` accepts comes out the same when cleaned again.
pub proof fn law_clean_login_settles(input: Seq<char>)
    requires
        valid_login(login_text(input)),
    ensures
        valid_login(login_text(login_text(input))),
        login_text(login_text(input)) == login_text(input),
{
    let s = login_text(input);
    assert(is_ascii_alnum(s[0]) || s[0] == '-');
    assert(is_ascii_alnum(s.last()) || s.last() == '-');
    assert(strip_front(s, text::white()) == s);
    assert(s.len() - 1 >= 0 && s[s.len() - 1] == s.last());
    assert(text::strip_back(s, text::white()) == s);
    assert(trimmed(s) == s);
    assert(!one_of(seq!['@'])(s[0]));
    assert(strip_front(s, one_of(seq!['@'])) == s);
}

} // verus!
