//! Text summaries: a trait for things that can describe themselves in one
//! line, two item types that implement it, and the breaking-news line built
//! from a summary.

use vstd::prelude::*;

verus! {

/// Relies on String::push_str, which appends the given string slice onto the
/// end of the string.
pub assume_specification[ String::push_str ](s: &mut String, other: &str)
    ensures
        final(s)@ == old(s)@ + other@,
;

/// Something that can describe itself in a single summary line.
pub trait Summary {
    /// The summary line, as a sequence of characters.
    spec fn spec_summarize(&self) -> Seq<char>;

    /// Produces the summary line.
    fn summarize(&self) -> (s: String)
        ensures
            s@ == self.spec_summarize(),
    ;
}

/// A news article, summarized by headline, author and location.
pub struct NewsArticle {
    pub headline: String,
    pub location: String,
    pub author: String,
    pub content: String,
}

impl Summary for NewsArticle {
    open spec fn spec_summarize(&self) -> Seq<char> {
        self.headline@ + ", by "@ + self.author@ + " ("@ + self.location@ + ")"@
    }

    fn summarize(&self) -> (s: String) {
        let mut s = self.headline.clone();
        s.push_str(", by ");
        s.push_str(self.author.as_str());
        s.push_str(" (");
        s.push_str(self.location.as_str());
        s.push_str(")");
        proof {
            assert(s@ =~= self.spec_summarize());
        }
        s
    }
}

/// A tweet, summarized by its author and text.
pub struct Tweet {
    pub username: String,
    pub content: String,
    pub reply: bool,
    pub retweet: bool,
}

impl Summary for Tweet {
    open spec fn spec_summarize(&self) -> Seq<char> {
        self.username@ + ": "@ + self.content@
    }

    fn summarize(&self) -> (s: String) {
        let mut s = self.username.clone();
        s.push_str(": ");
        s.push_str(self.content.as_str());
        proof {
            assert(s@ =~= self.spec_summarize());
        }
        s
    }
}

/// The breaking-news line for an item: its summary behind a fixed banner.
pub fn notify_line<T: Summary>(item: &T) -> (s: String)
    ensures
        s@ == "Breaking news! "@ + item.spec_summarize(),
{
    let mut s = String::new();
    s.push_str("Breaking news! ");
    let line = item.summarize();
    s.push_str(line.as_str());
    proof {
        assert(s@ =~= "Breaking news! "@ + item.spec_summarize());
    }
    s
}

} // verus!
