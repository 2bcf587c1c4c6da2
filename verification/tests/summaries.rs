//! Tests of the summary lines and the breaking-news banner, with exact
//! expected strings.

use memocache::summary::NewsArticle;
use memocache::summary::Summary;
use memocache::summary::Tweet;
use memocache::summary::notify_line;

fn sample_tweet() -> Tweet {
    Tweet {
        username: String::from("horse_ebooks"),
        content: String::from("of course, as you probably already know, people"),
        reply: false,
        retweet: false,
    }
}

fn sample_article() -> NewsArticle {
    NewsArticle {
        headline: String::from("Penguins win the Stanley Cup Championship!"),
        location: String::from("Pittsburgh, PA, USA"),
        author: String::from("Iceburgh"),
        content: String::from("The Pittsburgh Penguins once again are the best hockey team in the NHL."),
    }
}

#[test]
fn tweet_summary_line() {
    assert_eq!(
        sample_tweet().summarize(),
        "horse_ebooks: of course, as you probably already know, people"
    );
}

#[test]
fn article_summary_line() {
    assert_eq!(
        sample_article().summarize(),
        "Penguins win the Stanley Cup Championship!, by Iceburgh (Pittsburgh, PA, USA)"
    );
}

#[test]
fn notify_line_carries_the_banner() {
    assert_eq!(
        notify_line(&sample_tweet()),
        "Breaking news! horse_ebooks: of course, as you probably already know, people"
    );
}

#[test]
fn empty_fields_still_compose() {
    let t = Tweet {
        username: String::new(),
        content: String::new(),
        reply: true,
        retweet: true,
    };
    assert_eq!(t.summarize(), ": ");
}
