use fundamentals::aggregator::notify;
use fundamentals::aggregator::notify_multi_type;
use fundamentals::aggregator::read_more;
use fundamentals::aggregator::returns_summarizable;
use fundamentals::aggregator::some_function;
use fundamentals::aggregator::some_function_better;
use fundamentals::aggregator::trait_bound_notify;
use fundamentals::aggregator::trait_bound_notify_multi_type;
use fundamentals::aggregator::NewsArticle;
use fundamentals::aggregator::Pair;
use fundamentals::aggregator::SocialPost;
use fundamentals::aggregator::Summary;
use std::fmt;

fn post() -> SocialPost {
    SocialPost {
        username: String::from("horse_ebooks"),
        content: String::from("of course, as you probably already know, people"),
        reply: false,
        repost: false,
    }
}

fn article() -> NewsArticle {
    NewsArticle {
        headline: String::from("Penguins win the Stanley Cup Championship!"),
        location: String::from("Pittsburgh, PA, USA"),
        author: String::from("Iceburgh"),
        content: String::from(
            "The Pittsburgh Penguins once again are the best \
             hockey team in the NHL.",
        ),
    }
}

#[test]
fn a_post_is_summarised_by_its_content() {
    assert_eq!(
        post().summarize(),
        "horse_ebooks: of course, as you probably already know, people"
    );
    assert_eq!(post().summarize_author(), "@horse_ebooks");
}

#[test]
fn an_article_points_to_its_author() {
    assert_eq!(article().summarize(), "(Read more from @Iceburgh...)");
    assert_eq!(article().summarize_author(), "@Iceburgh");
    assert_eq!(read_more("@Iceburgh"), "(Read more from @Iceburgh...)");
    assert_eq!(read_more(""), "(Read more from ...)");
}

#[test]
fn notices_announce_the_summaries() {
    assert_eq!(
        notify(&article(), &post()),
        "Breaking news! (Read more from @Iceburgh...), horse_ebooks: of course, as you probably already know, people"
    );
    assert_eq!(
        trait_bound_notify(&article()),
        "Breaking news! (Read more from @Iceburgh...)"
    );
}

struct Headline(String);

impl Summary for Headline {
    fn summarize(&self) -> String {
        self.0.clone()
    }

    fn summarize_author(&self) -> String {
        String::from("@nobody")
    }
}

impl fmt::Display for Headline {
    fn fmt(&self, f: &mut fmt::Formatter<'_>) -> fmt::Result {
        f.write_str(&self.0)
    }
}

#[test]
fn texts_of_several_traits_are_accepted() {
    let headline = Headline(String::from("News"));
    notify_multi_type(&headline);
    trait_bound_notify_multi_type(&headline);
    assert_eq!(trait_bound_notify(&headline), "Breaking news! News");
    assert_eq!(some_function(&1, &"u"), 1);
    assert_eq!(some_function_better(&String::from("t"), &vec![1]), 1);
}

#[test]
fn the_summarizable_is_the_post_of_horse_ebooks() {
    let item = returns_summarizable();
    assert_eq!(
        item.summarize(),
        "horse_ebooks: of course, as you probably already know, people"
    );
    assert_eq!(item.summarize_author(), "@horse_ebooks");
}

#[test]
fn pairs_know_their_largest_member() {
    assert!(Pair::new(3, 2).cmp_display());
    assert!(Pair::new(2, 2).cmp_display());
    assert!(!Pair::new(1, 2).cmp_display());
    assert!(Pair::new("b", "a").cmp_display());
    assert!(!Pair::new(f64::NAN, 1.0).cmp_display());
    let pair = Pair::new('x', 'y');
    assert_eq!((pair.x, pair.y), ('x', 'y'));
}
