use http::HeaderMap;
use opentelemetry_tracing_utils::carrier::Extractor;
use opentelemetry_tracing_utils::composite::CompositePropagator;
use opentelemetry_tracing_utils::context::TraceContext;
use opentelemetry_tracing_utils::propagation::Propagator;

fn pairs_of(context: &TraceContext) -> Vec<(String, String)> {
    let mut pairs = context.baggage_pairs().clone();
    pairs.sort();
    pairs
}

fn extracted(header: &str) -> TraceContext {
    let mut headers = HeaderMap::new();
    headers.insert("baggage", http::HeaderValue::from_str(header).unwrap());
    Propagator::Baggage.extract(&headers)
}

fn injected(context: &TraceContext) -> Option<String> {
    let mut headers = HeaderMap::new();
    Propagator::Baggage.inject(context, &mut headers);
    Extractor::get(&headers, "baggage")
}

fn pair(key: &str, value: &str) -> (String, String) {
    (key.to_string(), value.to_string())
}

#[test]
fn plain_header_is_read_as_listed() {
    let context = extracted("a=1,b-c=x.y,D_e=Z,f=");
    assert_eq!(
        pairs_of(&context),
        vec![pair("D_e", "Z"), pair("a", "1"), pair("b-c", "x.y"), pair("f", "")]
    );
}

#[test]
fn later_entry_of_a_header_wins() {
    let context = extracted("a=1,b=2,a=3");
    assert_eq!(pairs_of(&context), vec![pair("a", "3"), pair("b", "2")]);
}

#[test]
fn empty_header_holds_nothing() {
    assert!(extracted("").baggage_pairs().is_empty());
}

#[test]
fn one_plain_entry_is_written_as_key_and_value() {
    let context = TraceContext::empty().with_baggage("user.id".to_string(), "a-1_B".to_string());
    assert_eq!(injected(&context), Some("user.id=a-1_B".to_string()));
    let empty_value = TraceContext::empty().with_baggage("k".to_string(), String::new());
    assert_eq!(injected(&empty_value), Some("k=".to_string()));
}

#[test]
fn plain_entries_are_written_joined_by_commas() {
    let context = TraceContext::of_baggage(vec![pair("b", "2"), pair("a", "1"), pair("c", "3")]);
    assert_eq!(injected(&context), Some("b=2,a=1,c=3".to_string()));
    for _ in 0..20 {
        assert_eq!(injected(&context), Some("b=2,a=1,c=3".to_string()));
    }
}

#[test]
fn entries_are_written_in_the_order_of_the_list() {
    let context = TraceContext::of_baggage(vec![pair("a", "1"), pair("b", "2"), pair("a", "3")]);
    let header = injected(&context).unwrap();
    assert_eq!(header, "a=1,b=2,a=3");
    assert_eq!(pairs_of(&extracted(&header)), vec![pair("a", "3"), pair("b", "2")]);
    assert_eq!(context.baggage_get("a"), Some("3".to_string()));
}

#[test]
fn sixty_four_plain_entries_make_the_round_trip() {
    let pairs: Vec<(String, String)> =
        (0..64).map(|index| (format!("key{index}"), format!("value{index}"))).collect();
    let context = TraceContext::of_baggage(pairs.clone());
    let header = injected(&context).unwrap();
    assert_eq!(header.split(',').count(), 64);
    let mut expected = pairs;
    expected.sort();
    assert_eq!(pairs_of(&extracted(&header)), expected);
}

#[test]
fn a_plain_header_of_the_greatest_length_is_read() {
    let value = "v".repeat(8192 - 2);
    let header = format!("k={value}");
    assert_eq!(header.len(), 8192);
    assert_eq!(pairs_of(&extracted(&header)), vec![pair("k", &value)]);
    let context = TraceContext::of_baggage(vec![pair("k", &value)]);
    assert_eq!(injected(&context), Some(header));
}

#[test]
fn a_header_of_sixty_four_short_entries_is_read() {
    let members: Vec<String> = (0..64).map(|index| format!("k{index}=v")).collect();
    let context = extracted(&members.join(","));
    assert_eq!(context.baggage_pairs().len(), 64);
    assert_eq!(context.baggage_get("k63"), Some("v".to_string()));
}

#[test]
fn the_round_trip_of_a_context() {
    let context = TraceContext::span(0x0af7651916cd43dd8448eb211c80319c, 0xb7ad6b7169203331, 1)
        .with_baggage("tenant".to_string(), "blue".to_string())
        .with_baggage("region".to_string(), "eu-west-1".to_string())
        .with_baggage("tenant".to_string(), "green".to_string());
    for members in [
        vec![Propagator::Baggage, Propagator::TraceParent],
        vec![Propagator::TraceParent, Propagator::Baggage],
    ] {
        let composite = CompositePropagator::new(members);
        let mut headers = HeaderMap::new();
        headers.insert("accept", http::HeaderValue::from_static("*/*"));
        composite.inject(&context, &mut headers);
        let found = composite.extract(&headers);
        assert!(found.has_active_span());
        assert_eq!(found.trace_id(), context.trace_id());
        assert_eq!(found.span_id(), context.span_id());
        assert_eq!(found.trace_flags(), 1);
        assert_eq!(pairs_of(&found), vec![pair("region", "eu-west-1"), pair("tenant", "green")]);
    }
}

#[test]
fn injecting_baggage_twice_reads_the_same() {
    let pairs: Vec<(String, String)> =
        (0..8).map(|index| (format!("key{index}"), format!("value{index}"))).collect();
    let context = TraceContext::span(1, 2, 1).merge(TraceContext::of_baggage(pairs.clone()));
    let composite = CompositePropagator::standard();
    let mut headers = HeaderMap::new();
    composite.inject(&context, &mut headers);
    let once = composite.extract(&headers);
    for _ in 0..20 {
        let before = headers.clone();
        composite.inject(&context, &mut headers);
        assert_eq!(headers, before);
        assert_eq!(headers.len(), 3);
        let again = composite.extract(&headers);
        assert_eq!(again.trace_id(), once.trace_id());
        assert_eq!(again.span_id(), once.span_id());
        assert_eq!(pairs_of(&again), pairs);
    }
}

#[test]
fn no_more_than_sixty_four_members_are_written() {
    let pairs: Vec<(String, String)> =
        (0..70).map(|index| (format!("k{index}"), format!("v{index}"))).collect();
    let context = TraceContext::of_baggage(pairs.clone());
    let header = injected(&context).unwrap();
    let members: Vec<&str> = header.split(',').collect();
    assert_eq!(members.len(), 64);
    assert_eq!(members[0], "k0=v0");
    assert_eq!(members[63], "k63=v63");
    let mut expected: Vec<(String, String)> = pairs[..64].to_vec();
    expected.sort();
    assert_eq!(pairs_of(&extracted(&header)), expected);
}

#[test]
fn a_member_that_no_longer_fits_is_left_out() {
    let long = "x".repeat(8000);
    let context = TraceContext::of_baggage(vec![
        pair("a", &long),
        pair("b", &"y".repeat(300)),
        pair("c", "3"),
        pair("d", &"z".repeat(9000)),
    ]);
    let header = injected(&context).unwrap();
    assert_eq!(header, format!("a={long},c=3"));
    let alone = TraceContext::of_baggage(vec![pair("d", &"z".repeat(9000))]);
    assert_eq!(injected(&alone), None);
}

#[test]
fn two_plain_entries_of_the_greatest_length_make_the_round_trip() {
    let first = "a".repeat(4000);
    let second = "b".repeat(8192 - 4000 - "one=,two=".len());
    let pairs = vec![pair("one", &first), pair("two", &second)];
    let context = TraceContext::of_baggage(pairs.clone());
    let header = injected(&context).unwrap();
    assert_eq!(header.len(), 8192);
    assert_eq!(pairs_of(&extracted(&header)), pairs);
}

#[test]
fn a_key_that_is_no_token_is_escaped_or_left_out() {
    let context = TraceContext::of_baggage(vec![pair("a", "x y"), pair("b", "1")]);
    let header = injected(&context).unwrap();
    assert_eq!(header, "a=x%20y,b=1");
    let found = extracted(&header);
    assert_eq!(pairs_of(&found), vec![pair("a", "x y"), pair("b", "1")]);
    let refused = TraceContext::of_baggage(vec![pair("a=b", "1"), pair("", "2")]);
    assert_eq!(injected(&refused), None);
    let mixed = TraceContext::of_baggage(vec![pair("a=b", "1"), pair("c", "2")]);
    assert_eq!(injected(&mixed), Some("c=2".to_string()));
}

#[test]
fn values_are_escaped_and_come_back() {
    let pairs = vec![
        pair("serverNode", "DF 28"),
        pair("list", "a,b;c=d\"e"),
        pair("lines", "one\ntwo\u{7f}\u{1}"),
        pair("a!#$&'*+-.^_`|~z", "<>?@[\\]{}()/:"),
        pair("empty", ""),
    ];
    let context = TraceContext::of_baggage(pairs.clone());
    let header = injected(&context).unwrap();
    assert_eq!(
        header,
        "serverNode=DF%2028,list=a%2Cb%3Bc%3Dd%22e,lines=one%0Atwo%7F%01,\
         a!#$&'*+-.^_`|~z=<>?@[\\]{}()/:,empty="
    );
    let mut expected = pairs;
    expected.sort();
    assert_eq!(pairs_of(&extracted(&header)), expected);
}

#[test]
fn a_value_with_white_space_at_its_ends_is_trimmed() {
    let context = TraceContext::of_baggage(vec![pair("k", " lead"), pair("t", "trail\t")]);
    let header = injected(&context).unwrap();
    assert_eq!(header, "k=lead,t=trail");
    assert_eq!(pairs_of(&extracted(&header)), vec![pair("k", "lead"), pair("t", "trail")]);
}

#[test]
fn a_value_that_is_not_ascii_is_escaped_byte_by_byte() {
    let context = TraceContext::of_baggage(vec![pair("k", "caf\u{e9}")]);
    let header = injected(&context).unwrap();
    assert_eq!(header, "k=caf%C3%A9");
    assert_eq!(pairs_of(&extracted(&header)), vec![pair("k", "caf\u{e9}")]);
}

#[test]
fn an_escaped_header_is_read_with_its_escapes_undone() {
    let context = extracted("a=x%20y,b=%3D%2C%3B,c=x%0A%7F");
    assert_eq!(
        pairs_of(&context),
        vec![pair("a", "x y"), pair("b", "=,;"), pair("c", "x\n\u{7f}")]
    );
    let trimmed = extracted("c=%0A%7F");
    assert_eq!(pairs_of(&trimmed), vec![pair("c", "\u{7f}")]);
}

fn is_key_char(c: char) -> bool {
    ('!'..='~').contains(&c) && !"(),/:;<=>?@[\\]{}\"%".contains(c)
}

#[test]
fn every_ascii_character_of_a_value_comes_back() {
    for code in 0u8..128 {
        let c = code as char;
        if c == '%' {
            continue;
        }
        let value = format!("x{c}y");
        let context = TraceContext::of_baggage(vec![pair("k", &value), pair("last", "1")]);
        let header = injected(&context).unwrap();
        let escapes = code < 0x21 || code == 0x7f || "\";,=".contains(c);
        let member = if escapes { format!("k=x%{code:02X}y") } else { format!("k=x{c}y") };
        assert_eq!(header, format!("{member},last=1"), "{code}");
        assert_eq!(pairs_of(&extracted(&header)), vec![pair("k", &value), pair("last", "1")]);
    }
}

#[test]
fn every_key_character_comes_back() {
    for code in 0u8..128 {
        let c = code as char;
        let key = format!("k{c}");
        let context = TraceContext::of_baggage(vec![pair(&key, "v w")]);
        if is_key_char(c) {
            let header = injected(&context).unwrap();
            assert_eq!(header, format!("{key}=v%20w"), "{code}");
            assert_eq!(pairs_of(&extracted(&header)), vec![pair(&key, "v w")], "{code}");
        }
    }
}

#[test]
fn only_white_space_at_the_ends_of_a_value_is_lost() {
    for code in 0u8..128 {
        let c = code as char;
        if c == '%' {
            continue;
        }
        let blank = c == ' ' || ('\t'..='\r').contains(&c);
        for value in [format!("{c}x"), format!("x{c}")] {
            let context = TraceContext::of_baggage(vec![pair("k", &value)]);
            let header = injected(&context).unwrap();
            let found = extracted(&header);
            let expected = if blank { "x".to_string() } else { value.clone() };
            assert_eq!(found.baggage_get("k"), Some(expected), "{code}");
        }
    }
}
