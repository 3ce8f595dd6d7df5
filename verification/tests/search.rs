use awesome_generator::search::{listing_type, ConnectIQSearch, SearchStep, PAGE_SIZE};
use awesome_generator::resource::ResourceType;

#[test]
fn search_pages_through_results() {
    let mut s: ConnectIQSearch<u32> = ConnectIQSearch::new("tennis".to_string());
    match s.next_step() {
        SearchStep::Fetch(req) => {
            assert_eq!(req.keyword, "tennis");
            assert_eq!(req.page_size, PAGE_SIZE);
            assert_eq!(req.start_page_index, 0);
        }
        other => panic!("unexpected {:?}", other),
    }
    s.page_arrived(Some((vec![1, 2], 45)));
    assert!(matches!(s.next_step(), SearchStep::Item(1)));
    assert!(matches!(s.next_step(), SearchStep::Item(2)));
    match s.next_step() {
        SearchStep::Fetch(req) => assert_eq!(req.start_page_index, 30),
        other => panic!("unexpected {:?}", other),
    }
    s.page_arrived(Some((vec![3], 45)));
    assert_eq!(s.start_page_index(), 60);
    assert!(matches!(s.next_step(), SearchStep::Item(3)));
    assert!(matches!(s.next_step(), SearchStep::Done));
}

#[test]
fn failed_page_ends_the_search() {
    let mut s: ConnectIQSearch<u32> = ConnectIQSearch::new("x".to_string());
    assert!(matches!(s.next_step(), SearchStep::Fetch(_)));
    s.page_arrived(None);
    assert!(matches!(s.next_step(), SearchStep::Done));
}

#[test]
fn listings_need_a_website() {
    assert!(matches!(listing_type("", "9".to_string()), Ok(None)));
    assert!(matches!(listing_type("https://x", "3".to_string()), Ok(Some(ResourceType::Widget))));
    assert!(listing_type("https://x", "9".to_string()).is_err());
}

fn drive(keyword: &str, answer: &dyn Fn(usize) -> Option<(Vec<u32>, usize)>) -> (Vec<u32>, Vec<usize>) {
    let mut s: ConnectIQSearch<u32> = ConnectIQSearch::new(keyword.to_string());
    let mut items = Vec::new();
    let mut starts = Vec::new();
    loop {
        match s.next_step() {
            SearchStep::Item(x) => items.push(x),
            SearchStep::Fetch(req) => {
                starts.push(req.start_page_index);
                s.page_arrived(answer(req.start_page_index));
            }
            SearchStep::Done => return (items, starts),
        }
    }
}

#[test]
fn whole_run_yields_every_page_in_order() {
    let answer = |start: usize| match start {
        0 => Some((vec![1, 2, 3], 61)),
        30 => Some((vec![4], 61)),
        60 => Some((vec![5, 6], 61)),
        _ => Some((vec![99], 61)),
    };
    let (items, starts) = drive("k", &answer);
    assert_eq!(items, vec![1, 2, 3, 4, 5, 6]);
    assert_eq!(starts, vec![0, 30, 60]);
}

#[test]
fn whole_run_with_no_results_makes_one_request() {
    let (items, starts) = drive("k", &|_| Some((vec![], 0)));
    assert!(items.is_empty());
    assert_eq!(starts, vec![0]);
}

#[test]
fn whole_run_stops_after_a_failed_request() {
    let answer = |start: usize| match start {
        0 => Some((vec![1, 2], 100)),
        30 => Some((vec![3], 100)),
        60 => None,
        _ => Some((vec![99], 100)),
    };
    let (items, starts) = drive("k", &answer);
    assert_eq!(items, vec![1, 2, 3]);
    assert_eq!(starts, vec![0, 30, 60]);
}
