use paper_search::apis::arxiv::{
    papers_from_events, paper_url, parse_atom_feed, read_events, search_url, urlencoded, Element,
    RawEvent, XmlEvent,
};
use paper_search::apis::SourceError;

const SAMPLE_ATOM: &str = r#"<?xml version="1.0" encoding="UTF-8"?>
<feed xmlns="http://www.w3.org/2005/Atom">
  <entry>
    <id>http://arxiv.org/abs/2301.12345v1</id>
    <title>Test Paper on AdS/CFT</title>
    <summary>This is a test abstract about AdS/CFT correspondence.</summary>
    <published>2023-01-15T00:00:00Z</published>
    <author><name>John Doe</name></author>
    <author><name>Jane Smith</name></author>
    <link href="http://arxiv.org/abs/2301.12345v1" rel="alternate" type="text/html"/>
    <link href="http://arxiv.org/pdf/2301.12345v1" title="pdf" type="application/pdf"/>
  </entry>
</feed>"#;

#[test]
fn test_parse_atom_feed() {
    let papers = parse_atom_feed(SAMPLE_ATOM).unwrap();
    assert_eq!(papers.len(), 1);
    let p = &papers[0];
    assert_eq!(p.id, "arxiv:2301.12345v1");
    assert!(p.title.contains("AdS/CFT"));
    assert_eq!(p.authors.len(), 2);
    assert_eq!(p.year, Some(2023));
    assert!(p.pdf_url.is_some());
}

#[test]
fn parse_atom_feed_reads_every_field() {
    let papers = parse_atom_feed(SAMPLE_ATOM).unwrap();
    let p = &papers[0];
    assert_eq!(p.title, "Test Paper on AdS/CFT");
    assert_eq!(p.authors, vec!["John Doe".to_string(), "Jane Smith".to_string()]);
    assert_eq!(
        p.abstract_text.as_deref(),
        Some("This is a test abstract about AdS/CFT correspondence.")
    );
    assert_eq!(p.source, "arxiv");
    assert_eq!(p.doi, None);
    assert_eq!(p.arxiv_id.as_deref(), Some("2301.12345v1"));
    assert_eq!(p.url, "http://arxiv.org/abs/2301.12345v1");
    assert_eq!(p.pdf_url.as_deref(), Some("http://arxiv.org/pdf/2301.12345v1"));
    assert_eq!(p.citation_count, None);
}

#[test]
fn parse_atom_feed_reads_several_entries_and_entities() {
    let xml = r#"<feed>
  <title>Feed title is not an entry</title>
  <entry>
    <id>http://arxiv.org/abs/1111.00001v2</id>
    <title>  Spin &amp; Charge
 in two lines </title>
    <summary>   </summary>
    <published>1999</published>
    <author><name> A. One </name></author>
    <author><name>   </name></author>
    <arxiv:doi>10.1000/xyz</arxiv:doi>
  </entry>
  <entry>
    <id>http://arxiv.org/abs/2222.00002</id>
    <title>   </title>
  </entry>
  <entry>
    <id>http://arxiv.org/abs/</id>
    <title>No number</title>
  </entry>
  <entry>
    <id>3333.00003</id>
    <title>Third</title>
    <published>abc</published>
    <link href="http://example.org/paper" title="other"/>
    <link href="http://example.org/abs/3333.00003"/>
    <link href="http://example.org/abs/second"/>
  </entry>
</feed>"#;
    let papers = parse_atom_feed(xml).unwrap();
    assert_eq!(papers.len(), 2);
    assert_eq!(papers[0].id, "arxiv:1111.00001v2");
    assert_eq!(papers[0].title, "Spin & Charge  in two lines");
    assert_eq!(papers[0].abstract_text, None);
    assert_eq!(papers[0].year, Some(1999));
    assert_eq!(papers[0].authors, vec!["A. One".to_string()]);
    assert_eq!(papers[0].doi.as_deref(), Some("10.1000/xyz"));
    assert_eq!(papers[0].url, "http://arxiv.org/abs/1111.00001v2");
    assert_eq!(papers[0].pdf_url, None);
    assert_eq!(papers[1].id, "arxiv:3333.00003");
    assert_eq!(papers[1].year, None);
    assert_eq!(papers[1].authors.len(), 0);
    assert_eq!(papers[1].doi, None);
    assert_eq!(papers[1].url, "http://example.org/abs/3333.00003");
}

#[test]
fn parse_atom_feed_of_nothing_is_empty() {
    assert!(parse_atom_feed("").unwrap().is_empty());
    assert!(parse_atom_feed("<feed></feed>").unwrap().is_empty());
}

#[test]
fn parse_atom_feed_reports_broken_xml() {
    match parse_atom_feed("<feed><entry></feed>") {
        Err(SourceError::Parse(text)) => assert!(text.starts_with("XML parse error: ")),
        other => panic!("expected a parse error, got {:?}", other),
    }
}

fn element(name: &str, attributes: &[(&str, &str)]) -> Element {
    Element {
        name: name.to_string(),
        attributes: attributes.iter().map(|(k, v)| (k.to_string(), v.to_string())).collect(),
    }
}

#[test]
fn papers_from_events_follows_the_events() {
    let events = vec![
        XmlEvent::Start(element("feed", &[])),
        XmlEvent::Text("ignored".to_string()),
        XmlEvent::Start(element("entry", &[])),
        XmlEvent::Start(element("id", &[])),
        XmlEvent::Text("http://arxiv.org/abs/1234.5678".to_string()),
        XmlEvent::Text("ignored second id".to_string()),
        XmlEvent::End("id".to_string()),
        XmlEvent::Other,
        XmlEvent::Start(element("title", &[])),
        XmlEvent::Text("A ".to_string()),
        XmlEvent::Text("Title".to_string()),
        XmlEvent::End("title".to_string()),
        XmlEvent::Text("between tags".to_string()),
        XmlEvent::Start(element("link", &[("href", "x/abs/1"), ("title", "pdf"), ("href", "y/pdf/1")])),
        XmlEvent::End("link".to_string()),
        XmlEvent::Empty(element("link", &[("href", "no match")])),
        XmlEvent::Empty(element("link", &[("href", "z/abs/1")])),
        XmlEvent::End("entry".to_string()),
        XmlEvent::End("feed".to_string()),
    ];
    let papers = papers_from_events(events);
    assert_eq!(papers.len(), 1);
    assert_eq!(papers[0].id, "arxiv:1234.5678");
    assert_eq!(papers[0].title, "A Title");
    assert_eq!(papers[0].pdf_url.as_deref(), Some("y/pdf/1"));
    assert_eq!(papers[0].url, "z/abs/1");
}

#[test]
fn an_entry_that_is_not_closed_makes_no_record() {
    let events = vec![
        XmlEvent::Start(element("entry", &[])),
        XmlEvent::Start(element("id", &[])),
        XmlEvent::Text("1".to_string()),
        XmlEvent::End("id".to_string()),
        XmlEvent::Start(element("title", &[])),
        XmlEvent::Text("T".to_string()),
        XmlEvent::End("title".to_string()),
    ];
    assert!(papers_from_events(events).is_empty());
    assert!(papers_from_events(vec![XmlEvent::End("entry".to_string())]).is_empty());
}

#[test]
fn arxiv_urlencoded() {
    assert_eq!(urlencoded("quantum error correction"), "quantum+error+correction");
    assert_eq!(urlencoded("ti:AdS/CFT"), "ti%3AAdS%2FCFT");
    assert_eq!(urlencoded(""), "");
    assert_eq!(urlencoded("a+b%3A"), "a+b%3A");
}

#[test]
fn arxiv_urls() {
    assert_eq!(
        search_url("black holes", 20),
        "https://export.arxiv.org/api/query?search_query=all:black+holes&start=0&max_results=20&sortBy=relevance&sortOrder=descending"
    );
    assert_eq!(
        search_url("x", 0),
        "https://export.arxiv.org/api/query?search_query=all:x&start=0&max_results=0&sortBy=relevance&sortOrder=descending"
    );
    assert_eq!(paper_url("arxiv:2301.12345"), "https://export.arxiv.org/api/query?id_list=2301.12345");
    assert_eq!(paper_url("2301.12345"), "https://export.arxiv.org/api/query?id_list=2301.12345");
}

#[test]
fn read_events_reads_names_and_attributes_out_of_tags() {
    let raw = vec![
        RawEvent::Start(b"link href=\"http://x/abs/1\" title='pdf'".to_vec(), 4),
        RawEvent::Empty(b"arxiv:doi".to_vec(), 9),
        RawEvent::End("entry".to_string()),
        RawEvent::Text("A & B".to_string()),
        RawEvent::Other,
        RawEvent::Start(b"ab".to_vec(), 3),
    ];
    let events = read_events(raw);
    assert_eq!(events.len(), 6);
    match &events[0] {
        XmlEvent::Start(e) => {
            assert_eq!(e.name, "link");
            assert_eq!(
                e.attributes,
                vec![
                    ("href".to_string(), "http://x/abs/1".to_string()),
                    ("title".to_string(), "pdf".to_string()),
                ]
            );
        }
        other => panic!("expected an opening tag, got {:?}", other),
    }
    match &events[1] {
        XmlEvent::Empty(e) => {
            assert_eq!(e.name, "arxiv:doi");
            assert!(e.attributes.is_empty());
        }
        other => panic!("expected an empty tag, got {:?}", other),
    }
    assert!(matches!(&events[2], XmlEvent::End(name) if name == "entry"));
    assert!(matches!(&events[3], XmlEvent::Text(text) if text == "A & B"));
    assert!(matches!(&events[4], XmlEvent::Other));
    match &events[5] {
        XmlEvent::Start(e) => {
            assert_eq!(e.name, "");
            assert!(e.attributes.is_empty());
        }
        other => panic!("expected an opening tag, got {:?}", other),
    }
}
