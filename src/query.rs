//! Translating a request's query string into `journalctl` arguments.
use vstd::prelude::*;

verus! {

/// The views of a sequence of key/value pairs.
pub open spec fn pairs_view(v: Seq<(String, String)>) -> Seq<(Seq<char>, Seq<char>)> {
    v.map_values(|p: (String, String)| (p.0@, p.1@))
}

/// The key/value pairs that `application/x-www-form-urlencoded` decoding
/// yields for a query string, in order.
pub uninterp spec fn query_pairs(query: Seq<char>) -> Seq<(Seq<char>, Seq<char>)>;

/// Relies on `form_urlencoded::parse`: the decoded key/value pairs of the
/// query, in the order they appear.
#[verifier::external_body]
fn parse_query(query: &str) -> (r: Vec<(String, String)>)
    ensures
        pairs_view(r@) == query_pairs(query@),
{
    form_urlencoded::parse(query.as_bytes()).map(|(k, v)| (k.into_owned(), v.into_owned())).collect()
}

/// The argument that one recognized query key adds; `None` for keys that
/// add nothing.
pub open spec fn key_arg(key: Seq<char>, value: Seq<char>) -> Option<Seq<char>> {
    if key == "lines"@ {
        Some("--lines="@ + value)
    } else if key == "unit"@ {
        Some("--unit="@ + value)
    } else if key == "since"@ {
        Some("--since="@ + value)
    } else if key == "until"@ {
        Some("--until="@ + value)
    } else if key == "grep"@ {
        Some("--grep="@ + value)
    } else if key == "hostname"@ {
        Some("_HOSTNAME="@ + value)
    } else if key == "matches"@ {
        Some(value)
    } else {
        None
    }
}

/// The filter arguments of the recognized keys, in the order of the pairs.
pub open spec fn filter_args(pairs: Seq<(Seq<char>, Seq<char>)>) -> Seq<Seq<char>>
    decreases pairs.len(),
{
    if pairs.len() == 0 {
        Seq::empty()
    } else {
        let rest = filter_args(pairs.drop_last());
        match key_arg(pairs.last().0, pairs.last().1) {
            Some(a) => rest.push(a),
            None => rest,
        }
    }
}

/// Whether some pair has key `key`.
pub open spec fn has_key(pairs: Seq<(Seq<char>, Seq<char>)>, key: Seq<char>) -> bool {
    exists|i: int| 0 <= i < pairs.len() && #[trigger] pairs[i].0 == key
}

/// The full argument list of a bounded, most-recent-first read: merged
/// sources, reverse order, the filters, and the default line bound when no
/// `lines` key asks for one.
pub open spec fn bounded_args(pairs: Seq<(Seq<char>, Seq<char>)>) -> Seq<Seq<char>> {
    seq!["--merge"@, "--reverse"@] + filter_args(pairs) + if has_key(pairs, "lines"@) {
        Seq::empty()
    } else {
        seq!["--lines"@]
    }
}

/// Filter arguments keep the order of the query: the arguments of two
/// runs of pairs one after the other are those of the first run followed by
/// those of the second.
pub proof fn lemma_filter_args_keep_order(
    a: Seq<(Seq<char>, Seq<char>)>,
    b: Seq<(Seq<char>, Seq<char>)>,
)
    ensures
        filter_args(a + b) == filter_args(a) + filter_args(b),
    decreases b.len(),
{
    if b.len() == 0 {
        assert(a + b =~= a);
        assert(filter_args(a) + filter_args(b) =~= filter_args(a));
    } else {
        lemma_filter_args_keep_order(a, b.drop_last());
        assert((a + b).drop_last() =~= a + b.drop_last());
        assert((a + b).last() == b.last());
    }
}

/// A pair whose key is not recognized adds no argument wherever it stands.
pub proof fn lemma_unrecognized_key_adds_nothing(
    a: Seq<(Seq<char>, Seq<char>)>,
    key: Seq<char>,
    value: Seq<char>,
    b: Seq<(Seq<char>, Seq<char>)>,
)
    requires
        key_arg(key, value) is None,
    ensures
        bounded_args(a + seq![(key, value)] + b) == bounded_args(a + b),
{
    let one = seq![(key, value)];
    lemma_filter_args_keep_order(a + one, b);
    lemma_filter_args_keep_order(a, one);
    lemma_filter_args_keep_order(a, b);
    assert(one.drop_last() =~= Seq::<(Seq<char>, Seq<char>)>::empty());
    assert(one.last() == (key, value));
    assert(filter_args(one.drop_last()) =~= Seq::<Seq<char>>::empty());
    assert(filter_args(one) =~= Seq::<Seq<char>>::empty());
    assert(filter_args(a) + filter_args(one) =~= filter_args(a));
    let with = a + one + b;
    let without = a + b;
    assert(key != "lines"@);
    assert(has_key(with, "lines"@) == has_key(without, "lines"@)) by {
        if has_key(with, "lines"@) {
            let j = choose|j: int| 0 <= j < with.len() && #[trigger] with[j].0 == "lines"@;
            if j < a.len() {
                assert(without[j] == with[j]);
            } else {
                assert(j > a.len());
                assert(without[j - 1] == with[j]);
            }
        }
        if has_key(without, "lines"@) {
            let j = choose|j: int| 0 <= j < without.len() && #[trigger] without[j].0 == "lines"@;
            if j < a.len() {
                assert(without[j] == with[j]);
            } else {
                assert(without[j] == with[j + 1]);
            }
        }
    }
}

/// A bounded read is never unbounded: without a `lines` key the arguments
/// still ask for the reader's default number of lines.
pub proof fn lemma_bounded_without_lines_key(pairs: Seq<(Seq<char>, Seq<char>)>)
    requires
        !has_key(pairs, "lines"@),
    ensures
        bounded_args(pairs).contains("--lines"@),
{
    let r = bounded_args(pairs);
    assert(r[r.len() - 1] == "--lines"@);
}

/// With a `lines` key, the arguments carry its bound.
pub proof fn lemma_bounded_with_lines_key(pairs: Seq<(Seq<char>, Seq<char>)>, i: int)
    requires
        0 <= i < pairs.len(),
        pairs[i].0 == "lines"@,
    ensures
        bounded_args(pairs).contains("--lines="@ + pairs[i].1),
{
    let a = pairs.take(i);
    let b = pairs.skip(i + 1);
    let one = seq![pairs[i]];
    assert(pairs =~= a + one + b);
    lemma_filter_args_keep_order(a + one, b);
    lemma_filter_args_keep_order(a, one);
    assert(one.drop_last() =~= Seq::<(Seq<char>, Seq<char>)>::empty());
    assert(one.last() == pairs[i]);
    assert(filter_args(one.drop_last()) =~= Seq::<Seq<char>>::empty());
    assert(filter_args(one) =~= seq!["--lines="@ + pairs[i].1]);
    let f = filter_args(pairs);
    assert(f[filter_args(a).len() as int] == "--lines="@ + pairs[i].1);
    assert(bounded_args(pairs)[2 + filter_args(a).len() as int] == "--lines="@ + pairs[i].1);
}

/// The argument list of a continuous read of the merged log.
pub open spec fn follow_args_spec() -> Seq<Seq<char>> {
    seq!["--merge"@, "--follow"@]
}

/// A bounded log read as a request asks for it.
pub struct JournalQuery {
    /// The arguments to run the log reader with.
    pub args: Vec<String>,
    /// Whether lines the allow-list recognizes are left out.
    pub unexpected: bool,
}

/// Whether `key` is the text `name`.
fn is_key(key: &String, name: &str) -> (r: bool)
    ensures
        r == (key@ == name@),
{
    let n = String::from_str(name);
    *key == n
}

/// `prefix` followed by `value`.
fn prefixed(prefix: &str, value: &String) -> (r: String)
    ensures
        r@ == prefix@ + value@,
{
    String::from_str(prefix).concat(value.as_str())
}

/// The argument one query pair adds, if its key is recognized.
pub fn pair_arg(key: &String, value: &String) -> (r: Option<String>)
    ensures
        r is Some <==> key_arg(key@, value@) is Some,
        r is Some ==> r->Some_0@ == key_arg(key@, value@)->Some_0,
{
    if is_key(key, "lines") {
        Some(prefixed("--lines=", value))
    } else if is_key(key, "unit") {
        Some(prefixed("--unit=", value))
    } else if is_key(key, "since") {
        Some(prefixed("--since=", value))
    } else if is_key(key, "until") {
        Some(prefixed("--until=", value))
    } else if is_key(key, "grep") {
        Some(prefixed("--grep=", value))
    } else if is_key(key, "hostname") {
        Some(prefixed("_HOSTNAME=", value))
    } else if is_key(key, "matches") {
        Some(value.clone())
    } else {
        None
    }
}

/// The log read that a list of query pairs asks for.
pub fn query_from_pairs(pairs: &Vec<(String, String)>) -> (r: JournalQuery)
    ensures
        crate::text::texts(r.args@) == bounded_args(pairs_view(pairs@)),
        r.unexpected == has_key(pairs_view(pairs@), "unexpected"@),
{
    let ghost pv = pairs_view(pairs@);
    let mut args: Vec<String> = Vec::new();
    args.push(String::from_str("--merge"));
    args.push(String::from_str("--reverse"));
    let ghost head = crate::text::texts(args@);
    let mut lines = false;
    let mut unexpected = false;
    let mut i: usize = 0;
    while i < pairs.len()
        invariant
            i <= pairs.len(),
            pv == pairs_view(pairs@),
            head == seq!["--merge"@, "--reverse"@],
            crate::text::texts(args@) == head + filter_args(pv.take(i as int)),
            lines == has_key(pv.take(i as int), "lines"@),
            unexpected == has_key(pv.take(i as int), "unexpected"@),
        decreases pairs.len() - i,
    {
        let ghost prev = pv.take(i as int);
        let ghost next = pv.take(i + 1);
        proof {
            assert(next.drop_last() =~= prev);
            assert(next.last() == pv[i as int]);
        }
        let key = &pairs[i].0;
        let value = &pairs[i].1;
        if is_key(key, "lines") {
            lines = true;
        }
        if is_key(key, "unexpected") {
            unexpected = true;
        }
        match pair_arg(key, value) {
            Some(a) => {
                let ghost before = crate::text::texts(args@);
                args.push(a);
                assert(crate::text::texts(args@) =~= before.push(a@));
                assert(crate::text::texts(args@) =~= head + filter_args(prev).push(a@));
            },
            None => {},
        }
        proof {
            assert(crate::text::texts(args@) =~= head + filter_args(next));
            assert(has_key(next, "lines"@) == (has_key(prev, "lines"@) || next[i as int].0
                == "lines"@)) by {
                if has_key(next, "lines"@) {
                    let j = choose|j: int| 0 <= j < next.len() && #[trigger] next[j].0 == "lines"@;
                    if j < i {
                        assert(prev[j] == next[j]);
                    }
                }
                if has_key(prev, "lines"@) {
                    let j = choose|j: int| 0 <= j < prev.len() && #[trigger] prev[j].0 == "lines"@;
                    assert(prev[j] == next[j]);
                }
            }
            assert(has_key(next, "unexpected"@) == (has_key(prev, "unexpected"@) || next[i as int].0
                == "unexpected"@)) by {
                if has_key(next, "unexpected"@) {
                    let j = choose|j: int| 0 <= j < next.len() && #[trigger] next[j].0 == "unexpected"@;
                    if j < i {
                        assert(prev[j] == next[j]);
                    }
                }
                if has_key(prev, "unexpected"@) {
                    let j = choose|j: int| 0 <= j < prev.len() && #[trigger] prev[j].0 == "unexpected"@;
                    assert(prev[j] == next[j]);
                }
            }
        }
        i = i + 1;
    }
    proof {
        assert(pv.take(pairs.len() as int) =~= pv);
    }
    let ghost before = crate::text::texts(args@);
    if !lines {
        args.push(String::from_str("--lines"));
    }
    proof {
        if !lines {
            assert(crate::text::texts(args@) =~= before.push("--lines"@));
        }
        assert(crate::text::texts(args@) =~= bounded_args(pv));
    }
    JournalQuery { args, unexpected }
}

/// The log read that a request's query string asks for.
pub fn run_journalctl(query: &str) -> (r: JournalQuery)
    ensures
        crate::text::texts(r.args@) == bounded_args(query_pairs(query@)),
        r.unexpected == has_key(query_pairs(query@), "unexpected"@),
{
    let pairs = parse_query(query);
    query_from_pairs(&pairs)
}

/// The arguments of a continuous read of the merged log, as the digest
/// collector runs it.
pub fn follow_args() -> (r: Vec<String>)
    ensures
        crate::text::texts(r@) == follow_args_spec(),
{
    let mut args: Vec<String> = Vec::new();
    args.push(String::from_str("--merge"));
    args.push(String::from_str("--follow"));
    assert(crate::text::texts(args@) =~= follow_args_spec());
    args
}

} // verus!
