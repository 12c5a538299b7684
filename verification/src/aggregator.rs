//! Summaries of texts of several kinds, for a media aggregator.

use std::cmp::Ordering;
use std::fmt::Debug;
use std::fmt::Display;
use vstd::prelude::*;
use vstd::std_specs::cmp::PartialOrdSpec;
use vstd::string::StringExecFns;

verus! {

/// A text that can be summarised.
pub trait Summary {
    /// The author, as the summary names them. A verified text says what it
    /// is; for a text that says nothing it is some text.
    open spec fn author_spec(&self) -> Seq<char> {
        arbitrary()
    }

    /// The summary. A verified text says what it is; for a text that says
    /// nothing it is some text.
    open spec fn summary_spec(&self) -> Seq<char> {
        arbitrary()
    }

    /// The summary of the text.
    fn summarize(&self) -> (summary: String)
        ensures
            summary@ == self.summary_spec(),
    ;

    /// The author of the text, as the summary names them.
    fn summarize_author(&self) -> (author: String)
        ensures
            author@ == self.author_spec(),
    ;
}

/// The summary of a text that has none of its own: a pointer to more from
/// its author.
pub open spec fn read_more_spec(author: Seq<char>) -> Seq<char> {
    "(Read more from "@ + author + "...)"@
}

/// The summary of a text that has none of its own: a pointer to more from
/// its author.
pub fn read_more(author: &str) -> (summary: String)
    ensures
        summary@ == read_more_spec(author@),
{
    let mut summary = String::from_str("(Read more from ");
    summary.append(author);
    summary.append("...)");
    summary
}

/// An article of a newspaper.
pub struct NewsArticle {
    pub headline: String,
    pub location: String,
    pub author: String,
    pub content: String,
}

/// A post on a social network.
pub struct SocialPost {
    pub username: String,
    pub content: String,
    pub reply: bool,
    pub repost: bool,
}

impl Summary for NewsArticle {
    open spec fn author_spec(&self) -> Seq<char> {
        "@"@ + self.author@
    }

    open spec fn summary_spec(&self) -> Seq<char> {
        read_more_spec(self.author_spec())
    }

    fn summarize(&self) -> (summary: String) {
        let author = self.summarize_author();
        read_more(author.as_str())
    }

    fn summarize_author(&self) -> (author: String) {
        let mut author = String::from_str("@");
        author.append(self.author.as_str());
        author
    }
}

impl Summary for SocialPost {
    open spec fn author_spec(&self) -> Seq<char> {
        "@"@ + self.username@
    }

    open spec fn summary_spec(&self) -> Seq<char> {
        self.username@ + ": "@ + self.content@
    }

    fn summarize(&self) -> (summary: String) {
        let mut summary = self.username.clone();
        summary.append(": ");
        summary.append(self.content.as_str());
        summary
    }

    fn summarize_author(&self) -> (author: String) {
        let mut author = String::from_str("@");
        author.append(self.username.as_str());
        author
    }
}

/// The notice that announces two texts, which may be of different kinds.
pub fn notify(item1: &impl Summary, item2: &impl Summary) -> (notice: String)
    ensures
        notice@ == "Breaking news! "@ + item1.summary_spec() + ", "@ + item2.summary_spec(),
{
    let mut notice = String::from_str("Breaking news! ");
    let first = item1.summarize();
    notice.append(first.as_str());
    notice.append(", ");
    let second = item2.summarize();
    notice.append(second.as_str());
    notice
}

/// The notice that announces one text.
pub fn trait_bound_notify<T: Summary>(item: &T) -> (notice: String)
    ensures
        notice@ == "Breaking news! "@ + item.summary_spec(),
{
    let mut notice = String::from_str("Breaking news! ");
    let summary = item.summarize();
    notice.append(summary.as_str());
    notice
}

/// Accepts a text that can be summarised and displayed, and does nothing
/// with it.
pub fn notify_multi_type(item: &(impl Summary + Display)) {
}

/// Accepts a text that can be summarised and displayed, and does nothing
/// with it.
pub fn trait_bound_notify_multi_type<T: Summary + Display>(item: &T) {
}

/// One, whatever the two values are.
pub fn some_function<T: Display + Clone, U: Clone + Debug>(t: &T, u: &U) -> (one: i32)
    ensures
        one == 1,
{
    1
}

/// One, whatever the two values are.
pub fn some_function_better<T, U>(t: &T, u: &U) -> (one: i32)
    where
        T: Display + Clone,
        U: Clone + Debug,
    ensures
        one == 1,
{
    1
}

/// A post of `horse_ebooks`, of which the caller learns only that it can be
/// summarised.
pub fn returns_summarizable() -> (post: impl Summary)
    ensures
        post.author_spec() == "@horse_ebooks"@,
        post.summary_spec() == "horse_ebooks: of course, as you probably already know, people"@,
{
    proof {
        reveal_strlit("@");
        reveal_strlit(": ");
        reveal_strlit("horse_ebooks");
        reveal_strlit("@horse_ebooks");
        reveal_strlit("of course, as you probably already know, people");
        reveal_strlit("horse_ebooks: of course, as you probably already know, people");
    }
    let post = SocialPost {
        username: String::from_str("horse_ebooks"),
        content: String::from_str("of course, as you probably already know, people"),
        reply: false,
        repost: false,
    };
    assert(post.author_spec() =~= "@horse_ebooks"@);
    assert(post.summary_spec() =~= "horse_ebooks: of course, as you probably already know, people"@);
    post
}

/// Two values of one type.
pub struct Pair<T> {
    pub x: T,
    pub y: T,
}

impl<T> Pair<T> {
    /// The pair of `x` and `y`.
    pub fn new(x: T, y: T) -> (pair: Self)
        ensures
            pair.x == x,
            pair.y == y,
    {
        Self { x, y }
    }
}

impl<T: Display + PartialOrd> Pair<T> {
    /// Whether the first member is the one to display as the largest: it
    /// is, unless it compares less than the second or not at all.
    pub fn cmp_display(&self) -> (x_is_largest: bool)
        ensures
            T::obeys_partial_cmp_spec() ==> (x_is_largest <==> self.x.partial_cmp_spec(&self.y)
                matches Some(Ordering::Greater | Ordering::Equal)),
    {
        self.x >= self.y
    }
}

} // verus!
