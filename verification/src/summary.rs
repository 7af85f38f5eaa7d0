//! Things that can be summed up in a line, and a news article as one of them.

use vstd::prelude::*;
use vstd::string::*;

verus! {

/// Something of which a short summary can be given.
pub trait Summary {
    /// The line that names the author.
    spec fn author_line(&self) -> Seq<char>;

    /// The line that sums the thing up.
    spec fn summary_line(&self) -> Seq<char>;

    /// Names the author.
    fn summarize_author(&self) -> (line: String)
        ensures
            line@ == self.author_line(),
    ;

    /// Sums the thing up.
    fn summarize(&self) -> (line: String)
        ensures
            line@ == self.summary_line(),
    ;
}

/// An article of a newspaper.
pub struct NewsArticle {
    pub headline: String,
    pub author: String,
    pub content: String,
}

impl Summary for NewsArticle {
    open spec fn author_line(&self) -> Seq<char> {
        self.author@
    }

    /// Headline, author and content, with one blank between them.
    open spec fn summary_line(&self) -> Seq<char> {
        self.headline@ + " "@ + self.author@ + " "@ + self.content@
    }

    fn summarize_author(&self) -> (line: String) {
        self.author.clone()
    }

    fn summarize(&self) -> (line: String) {
        let mut line = self.headline.clone();
        line.append(" ");
        line.append(self.author.as_str());
        line.append(" ");
        line.append(self.content.as_str());
        line
    }
}

} // verus!
