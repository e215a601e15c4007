use ownership_kit::borrowing::{calculate_length as length_of, change, dangle};
use ownership_kit::closures::Cacher;
use ownership_kit::functions::{fibonacci, sum};
use ownership_kit::lifetimes::{longest, ImportantExcerpt};
use ownership_kit::ownership::{calculate_length, gives_ownership, takes_and_gives_back};
use ownership_kit::slices::first_word;
use ownership_kit::structs::{build_user, User};
use ownership_kit::traits::{Book, BookSummary};

#[test]
fn sum_adds() {
    assert_eq!(sum(5, 5), 10);
    assert_eq!(sum(-7, 3), -4);
}

#[test]
fn fibonacci_values() {
    assert_eq!(fibonacci(0), 0);
    assert_eq!(fibonacci(1), 1);
    assert_eq!(fibonacci(10), 55);
    assert_eq!(fibonacci(20), 6765);
}

#[test]
fn longest_picks_longer() {
    assert_eq!(longest("abcd", "xyz"), "abcd");
    assert_eq!(longest("str01", "str001"), "str001");
    assert_eq!(longest("ab", "cd"), "cd");
}

#[test]
fn excerpt_level() {
    let p = ImportantExcerpt { part: "part one" };
    assert_eq!(p.level(), 3);
    assert_eq!(p.part, "part one");
}

#[test]
fn first_word_of_text() {
    assert_eq!(first_word("hello world"), "hello");
    assert_eq!(first_word("hello"), "hello");
    assert_eq!(first_word(""), "");
    assert_eq!(first_word(" lead"), "");
    assert_eq!(first_word("здравствуй мир"), "здравствуй");
}

#[test]
fn ownership_moves() {
    assert_eq!(gives_ownership(), "hello");
    assert_eq!(takes_and_gives_back(String::from("hi")), "hi");
    let (s, len) = calculate_length(String::from("hello"));
    assert_eq!(s, "hello");
    assert_eq!(len, 5);
    let (_, len) = calculate_length(String::from("Здра"));
    assert_eq!(len, 8);
}

#[test]
fn borrowing_reads_and_changes() {
    let s = String::from("hello");
    assert_eq!(length_of(&s), 5);
    let mut t = String::from("hello");
    change(&mut t);
    assert_eq!(t, "hello, world");
    assert_eq!(dangle(), "hello");
}

#[test]
fn users() {
    let u = build_user(String::from("someone@example.com"), String::from("someusername123"));
    assert_eq!(u.email, "someone@example.com");
    assert_eq!(u.username, "someusername123");
    assert!(u.active);
    assert_eq!(u.sign_in_count, 1);
    let u3 = User::new(String::from("next@example.com"), String::from("nextusername89"), 5, true);
    assert_eq!(
        u3.to_string(),
        "email next@example.com, username nextusername89, sign in count 5, active true"
    );
    let u4 = User::new(String::from("a@b"), String::from("x"), 18446744073709551615, false);
    assert_eq!(
        u4.to_string(),
        "email a@b, username x, sign in count 18446744073709551615, active false"
    );
    let u5 = User::new(String::from("a@b"), String::from("x"), 0, true);
    assert_eq!(u5.to_string(), "email a@b, username x, sign in count 0, active true");
}

#[test]
fn cacher_remembers_first_result() {
    let mut c = Cacher::new(|x: u32| -> u32 { x + 1 });
    assert_eq!(c.value, None);
    assert_eq!(c.value(10), 11);
    assert_eq!(c.value, Some(11));
    assert_eq!(c.value(20), 11);
}

#[test]
fn book_summaries() {
    let book = Book { author: String::from("Johny Pytlik"), info: String::from("Super book") };
    assert_eq!(book.author_summarize(), "author : Johny Pytlik");
    assert_eq!(book.summarize(), "(Read more from author : Johny Pytlik)");
    assert_eq!(book.publisher_summary(), "Our Small Company Inc.");
    assert_eq!(book.info, "Super book");
}

#[test]
fn number_summaries() {
    let v: i32 = 50;
    assert_eq!(v.summarize(), "(Read more from i32 : 50)");
    assert_eq!((-2147483648i32).author_summarize(), "i32 : -2147483648");
    assert_eq!(0i32.author_summarize(), "i32 : 0");
    assert_eq!(v.publisher_summary(), "Our Small Company Inc.");
}

#[test]
fn first_word_after_space_join() {
    let joined = String::from("word") + " " + "rest of it";
    assert_eq!(first_word(&joined), "word");
    assert_eq!(first_word(first_word("hello world")), "hello");
    assert_eq!(first_word(" a"), "");
}
