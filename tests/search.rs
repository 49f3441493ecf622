use cortex_chat::search::{
    merge_academic_results, SearchResult,
    parse_crossref_results, parse_semantic_scholar_results, Author, CrossrefAuthor, CrossrefDate, CrossrefMessage,
    CrossrefResponse, CrossrefWork, ExternalIds, Paper, SemanticScholarResponse,
};

#[test]
fn crossref_works_become_results() {
    let response = CrossrefResponse {
        message: CrossrefMessage {
            items: vec![
                CrossrefWork {
                    doi: "10.1/abc".into(),
                    title: vec!["Main".into(), "Alt".into()],
                    abstract_: Some("summary".into()),
                    author: Some(vec![
                        CrossrefAuthor { given: Some("Ada".into()), family: Some("Lovelace".into()) },
                        CrossrefAuthor { given: None, family: Some("Turing".into()) },
                        CrossrefAuthor { given: Some("Grace".into()), family: None },
                        CrossrefAuthor { given: None, family: None },
                    ]),
                    published: Some(CrossrefDate { date_parts: vec![vec![2021, 3, 4]] }),
                },
                CrossrefWork { doi: "10.2/x".into(), title: vec![], abstract_: None, author: None, published: Some(CrossrefDate { date_parts: vec![vec![]] }) },
            ],
        },
    };
    let r = parse_crossref_results(response);
    assert_eq!(r.len(), 2);
    assert_eq!(r[0].title, "Main");
    assert_eq!(r[0].url, "https://doi.org/10.1/abc");
    assert_eq!(r[0].snippet, "summary");
    assert_eq!(r[0].source_type.as_deref(), Some("crossref"));
    assert_eq!(r[0].authors.clone().unwrap(), vec!["Ada Lovelace", "Turing", "Grace"]);
    assert_eq!(r[0].publish_date.as_deref(), Some("2021"));
    assert_eq!(r[0].doi.as_deref(), Some("10.1/abc"));
    assert_eq!(r[1].title, "");
    assert_eq!(r[1].snippet, "");
    assert!(r[1].authors.is_none());
    assert!(r[1].publish_date.is_none());
}

#[test]
fn semantic_scholar_papers_become_results() {
    let response = SemanticScholarResponse {
        data: vec![
            Paper {
                title: "Paper".into(),
                abstract_: Some("abs".into()),
                url: Some("https://s2/p".into()),
                year: Some(1999),
                authors: vec![Author { name: "A".into() }, Author { name: "B".into() }],
                external_ids: Some(ExternalIds { doi: Some("10.9/z".into()) }),
            },
            Paper { title: "Bare".into(), abstract_: None, url: None, year: None, authors: vec![], external_ids: None },
        ],
    };
    let r = parse_semantic_scholar_results(response);
    assert_eq!(r.len(), 2);
    assert_eq!(r[0].url, "https://s2/p");
    assert_eq!(r[0].source_type.as_deref(), Some("academic"));
    assert_eq!(r[0].authors.clone().unwrap(), vec!["A", "B"]);
    assert_eq!(r[0].publish_date.as_deref(), Some("1999"));
    assert_eq!(r[0].doi.as_deref(), Some("10.9/z"));
    assert_eq!(r[1].url, "");
    assert_eq!(r[1].snippet, "");
    assert_eq!(r[1].authors.clone().unwrap(), Vec::<String>::new());
    assert!(r[1].publish_date.is_none());
    assert!(r[1].doi.is_none());
}

fn hit(title: &str, date: Option<&str>, doi: Option<&str>) -> SearchResult {
    SearchResult {
        title: title.into(),
        url: String::new(),
        snippet: String::new(),
        source_type: None,
        authors: None,
        publish_date: date.map(String::from),
        doi: doi.map(String::from),
    }
}

#[test]
fn academic_merge_sorts_dedups_and_truncates() {
    let merged = merge_academic_results(vec![
        hit("r1", Some("2020"), Some("d1")),
        hit("r2", None, None),
        hit("r3", Some("2023"), Some("d2")),
        hit("r4", Some("2023"), Some("d2")),
        hit("r5", Some("2021-05"), None),
        hit("r6", Some("2023"), None),
    ]);
    let titles: Vec<&str> = merged.iter().map(|r| r.title.as_str()).collect();
    assert_eq!(titles, vec!["r3", "r6", "r5", "r1", "r2"]);

    let many: Vec<SearchResult> = (0..12).map(|i| hit(&format!("t{}", i), Some(&format!("{:02}", i)), None)).collect();
    let top = merge_academic_results(many);
    assert_eq!(top.len(), 10);
    assert_eq!(top[0].title, "t11");
    assert_eq!(top[9].title, "t2");
    assert!(merge_academic_results(vec![]).is_empty());
}
