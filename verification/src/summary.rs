//! Summaries: a behaviour shared by articles and tweets.
use vstd::prelude::*;
use vstd::string::*;

verus! {

/// Something that can be summarised in one line.
pub trait Summary {
    /// The summary. An item that has nothing more specific to say refers the
    /// reader to the full text.
    fn summarize(&self) -> (summary: String)
        default_ensures
            summary@ == "readmore..."@,
    {
        String::from_str("readmore...")
    }

    /// The line by which the item introduces itself: its summary.
    fn summary_author(&self) -> (line: String)
        default_ensures
            call_ensures(Self::summarize, (self,), line),
    {
        self.summarize()
    }
}

/// Whether `summary` is what `item` may give as its summary.
pub open spec fn summarized_as<T: Summary>(item: &T, summary: String) -> bool {
    call_ensures(T::summarize, (item,), summary)
}

/// A newspaper article.
pub struct NewsArticle {
    pub headline: String,
    pub location: String,
    pub author: String,
    pub content: String,
}

impl Summary for NewsArticle {
    /// Headline, author and place: `headline, by author (location)`.
    fn summarize(&self) -> (summary: String)
        ensures
            summary@ == self.headline@ + ", by "@ + self.author@ + " ("@ + self.location@ + ")"@,
    {
        let mut summary = self.headline.clone();
        summary.append(", by ");
        summary.append(self.author.as_str());
        summary.append(" (");
        summary.append(self.location.as_str());
        summary.append(")");
        summary
    }
}

/// A short public message.
pub struct Tweet {
    pub username: String,
    pub content: String,
    pub replt: String,
    pub retweet: String,
}

impl Summary for Tweet {
    /// Author and text: `username: content`.
    fn summarize(&self) -> (summary: String)
        ensures
            summary@ == self.username@ + ": "@ + self.content@,
    {
        let mut summary = self.username.clone();
        summary.append(": ");
        summary.append(self.content.as_str());
        summary
    }
}

/// The sample tweet.
fn sample_tweet() -> (tweet: Tweet)
    ensures
        tweet.username@ == "wswei"@,
        tweet.content@ == "tweet content"@,
        tweet.replt@ == "replt"@,
        tweet.retweet@ == "retweet"@,
{
    Tweet {
        username: String::from_str("wswei"),
        content: String::from_str("tweet content"),
        replt: String::from_str("replt"),
        retweet: String::from_str("retweet"),
    }
}

/// The line by which the sample tweet introduces itself.
pub fn trait_practice() -> (line: String)
    ensures
        line@ == "wswei"@ + ": "@ + "tweet content"@,
{
    let tweet = sample_tweet();
    tweet.summary_author()
}

/// The announcement of `item`: its summary behind a fixed heading.
pub fn notify(item: impl Summary) -> (line: String)
    ensures
        exists|summary: String| #[trigger]
            summarized_as(&item, summary) && line@ == "Breadking news! "@ + summary@,
{
    let mut line = String::from_str("Breadking news! ");
    let summary = item.summarize();
    line.append(summary.as_str());
    assert(summarized_as(&item, summary));
    line
}

/// The announcement of `item`, for any type of item that has a summary.
pub fn notify_summary<T: Summary>(item: T) -> (line: String)
    ensures
        exists|summary: String| #[trigger]
            summarized_as(&item, summary) && line@ == "Breadking news! "@ + summary@,
{
    let mut line = String::from_str("Breadking news! ");
    let summary = item.summarize();
    line.append(summary.as_str());
    assert(summarized_as(&item, summary));
    line
}

/// Accepts any item that has a summary and can be displayed, and does
/// nothing with it.
pub fn notify_summary_displat(item: impl Summary + std::fmt::Display) {
}

/// Accepts a displayable, clonable value and a clonable, debuggable one, and
/// does nothing with them.
pub fn some_function<T: std::fmt::Display + Clone, U: Clone + std::fmt::Debug>(t: T, u: U) {
}

/// Something that has a summary, without saying which type it is: the sample
/// tweet.
pub fn returns_summart() -> (item: impl Summary)
    ensures
        forall|summary: String| #[trigger]
            summarized_as(&item, summary) ==> summary@ == "wswei"@ + ": "@ + "tweet content"@,
{
    sample_tweet()
}

} // verus!
