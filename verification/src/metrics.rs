//! The Prometheus `/metrics` endpoint: reading the request, rendering the
//! metrics, and writing the response.

use vstd::prelude::*;
use vstd::string::*;
use vstd::utf8::*;

use crate::admin;
use crate::pool;
use crate::pool::PoolStatus;
use crate::text;

pub mod page;

verus! {

// ---------------------------------------------------------------------------
// the request
// ---------------------------------------------------------------------------

/// How many bytes of a request are read at most before it is answered.
pub const MAX_HEAD: usize = 16384;

/// Whether the end of a request's head is at this position.
pub open spec fn head_ends_at(buf: Seq<u8>, i: int) -> bool {
    0 <= i && i + 4 <= buf.len() && buf[i] == 13 && buf[i + 1] == 10 && buf[i + 2] == 13 && buf[i
        + 3] == 10
}

/// Whether enough of a request was read: its whole head, or too much.
pub fn head_complete(buf: &Vec<u8>) -> (r: bool)
    ensures
        r == ((exists|i: int| #[trigger] head_ends_at(buf@, i)) || buf@.len() > MAX_HEAD),
{
    if buf.len() > MAX_HEAD {
        return true;
    }
    let mut i: usize = 0;
    while i < buf.len()
        invariant
            i <= buf.len(),
            buf@.len() <= MAX_HEAD,
            forall|j: int| 0 <= j < i ==> !#[trigger] head_ends_at(buf@, j),
        decreases buf.len() - i,
    {
        if buf.len() - i >= 4 && buf[i] == 13 && buf[i + 1] == 10 && buf[i + 2] == 13 && buf[i + 3]
            == 10 {
            assert(head_ends_at(buf@, i as int));
            return true;
        }
        i += 1;
    }
    assert forall|j: int| !#[trigger] head_ends_at(buf@, j) by {}
    false
}

/// The text that bytes stand for, with what is not UTF-8 replaced.
pub uninterp spec fn lossy_text(bytes: Seq<u8>) -> Seq<char>;

/// `String::from_utf8_lossy`: the result depends on the bytes alone; valid
/// UTF-8 is decoded as it is.
#[verifier::external_body]
fn lossy(bytes: &[u8]) -> (r: String)
    ensures
        r@ == lossy_text(bytes@),
        valid_utf8(bytes@) ==> r@ == decode_utf8(bytes@),
{
    String::from_utf8_lossy(bytes).into_owned()
}

/// A text up to its first line end.
pub open spec fn first_line(s: Seq<char>) -> Seq<char>
    decreases s.len(),
{
    if s.len() == 0 || s[0] == '\n' {
        Seq::empty()
    } else {
        seq![s[0]] + first_line(s.skip(1))
    }
}

/// The characters of a text up to the first white space.
pub open spec fn word(s: Seq<char>) -> Seq<char>
    decreases s.len(),
{
    if s.len() == 0 || text::is_white_space(s[0]) {
        Seq::empty()
    } else {
        seq![s[0]] + word(s.skip(1))
    }
}

/// The first word of a text, and what follows it.
pub open spec fn split_word(s: Seq<char>) -> (Seq<char>, Seq<char>) {
    let t = text::trim_start(s);
    (word(t), t.skip(word(t).len() as int))
}

/// Whether a request's head asks for the metrics.
pub open spec fn asks_metrics(head: Seq<char>) -> bool {
    let (method, rest) = split_word(first_line(head));
    let (path, _) = split_word(rest);
    method == "GET"@ && path == "/metrics"@
}

/// The end of the first line.
fn line_end(chars: &Vec<char>) -> (e: usize)
    ensures
        e <= chars.len(),
        chars@.take(e as int) == first_line(chars@),
{
    let mut e: usize = 0;
    assert(chars@.take(0) + first_line(chars@.skip(0)) =~= first_line(chars@)) by {
        assert(chars@.skip(0) =~= chars@);
    }
    while e < chars.len() && chars[e] != '\n'
        invariant
            e <= chars.len(),
            chars@.take(e as int) + first_line(chars@.skip(e as int)) == first_line(chars@),
        decreases chars.len() - e,
    {
        proof {
            let rest = chars@.skip(e as int);
            assert(rest.skip(1) =~= chars@.skip(e + 1));
            assert(chars@.take(e + 1) + first_line(rest.skip(1)) =~= chars@.take(e as int) + (
            seq![rest[0]] + first_line(rest.skip(1))));
        }
        e += 1;
    }
    assert(first_line(chars@.skip(e as int)) =~= Seq::<char>::empty());
    assert(chars@.take(e as int) + Seq::<char>::empty() =~= chars@.take(e as int));
    e
}

/// The end of the word that starts at `from`.
fn word_end(chars: &Vec<char>, from: usize) -> (e: usize)
    requires
        from <= chars.len(),
    ensures
        from <= e <= chars.len(),
        chars@.subrange(from as int, e as int) == word(chars@.skip(from as int)),
{
    let ghost body = chars@.skip(from as int);
    let mut e: usize = from;
    assert(chars@.subrange(from as int, from as int) + word(body) =~= word(body));
    while e < chars.len() && !text::white_space(chars[e])
        invariant
            from <= e <= chars.len(),
            body == chars@.skip(from as int),
            chars@.subrange(from as int, e as int) + word(chars@.skip(e as int)) == word(body),
        decreases chars.len() - e,
    {
        proof {
            let rest = chars@.skip(e as int);
            assert(rest.skip(1) =~= chars@.skip(e + 1));
            assert(chars@.subrange(from as int, e + 1) + word(rest.skip(1)) =~= chars@.subrange(
                from as int,
                e as int,
            ) + (seq![rest[0]] + word(rest.skip(1))));
        }
        e += 1;
    }
    assert(word(chars@.skip(e as int)) =~= Seq::<char>::empty());
    assert(chars@.subrange(from as int, e as int) + Seq::<char>::empty() =~= chars@.subrange(
        from as int,
        e as int,
    ));
    e
}

/// Whether a request's head asks for the metrics: `GET /metrics`.
pub fn is_metrics_request(head: &str) -> (r: bool)
    ensures
        r == asks_metrics(head@),
{
    let all = text::to_chars(head);
    let end: usize = line_end(&all);
    let line = text::from_chars(&all, 0, end);
    assert(all@.subrange(0, end as int) =~= all@.take(end as int));
    let chars = text::to_chars(line.as_str());
    let ghost l = first_line(head@);
    assert(chars@ == l);
    assert(chars@.skip(0) =~= l);
    let m: usize = text::skip_white_space(&chars, 0);
    let e: usize = word_end(&chars, m);
    let method = text::from_chars(&chars, m, e);
    let p: usize = text::skip_white_space(&chars, e);
    let q: usize = word_end(&chars, p);
    let path = text::from_chars(&chars, p, q);
    proof {
        let t = text::trim_start(l);
        assert(chars@.skip(m as int) == t);
        assert(method@ == word(t));
        assert(word(t).len() == e - m);
        assert(chars@.skip(e as int) =~= t.skip(e - m));
    }
    text::same_text(method.as_str(), "GET") && text::same_text(path.as_str(), "/metrics")
}

// ---------------------------------------------------------------------------
// rendering
// ---------------------------------------------------------------------------

/// What a character of a label value is written as.
pub open spec fn escaped_char(c: char) -> Seq<char> {
    if c == '\\' {
        seq!['\\', '\\']
    } else if c == '"' {
        seq!['\\', '"']
    } else if c == '\n' {
        seq!['\\', 'n']
    } else {
        seq![c]
    }
}

/// A label value with backslashes, quotes and line ends escaped.
pub open spec fn escaped(s: Seq<char>) -> Seq<char>
    decreases s.len(),
{
    if s.len() == 0 {
        Seq::empty()
    } else {
        escaped(s.drop_last()) + escaped_char(s.last())
    }
}

/// Escape a label value: backslashes, quotes and line ends.
pub fn escape(value: &str) -> (r: String)
    ensures
        r@ == escaped(value@),
{
    let chars = text::to_chars(value);
    let mut r = String::new();
    let mut i: usize = 0;
    assert(chars@.take(0) =~= Seq::<char>::empty());
    while i < chars.len()
        invariant
            i <= chars.len(),
            r@ == escaped(chars@.take(i as int)),
        decreases chars.len() - i,
    {
        let ghost before = r@;
        assert(chars@.take(i + 1).drop_last() =~= chars@.take(i as int));
        let c = chars[i];
        if c == '\\' {
            r.push('\\');
            r.push('\\');
        } else if c == '"' {
            r.push('\\');
            r.push('"');
        } else if c == '\n' {
            r.push('\\');
            r.push('n');
        } else {
            r.push(c);
        }
        assert(r@ =~= before + escaped_char(c));
        i += 1;
    }
    assert(chars@.take(chars.len() as int) =~= chars@);
    r
}

/// What an escaped label value stands for.
pub open spec fn unescaped(s: Seq<char>) -> Seq<char>
    decreases s.len(),
{
    if s.len() == 0 {
        Seq::empty()
    } else if s[0] == '\\' && s.len() > 1 {
        seq![
            if s[1] == 'n' {
                '\n'
            } else {
                s[1]
            },
        ] + unescaped(s.skip(2))
    } else {
        seq![s[0]] + unescaped(s.skip(1))
    }
}

proof fn lemma_escaped_front(s: Seq<char>)
    requires
        s.len() > 0,
    ensures
        escaped(s) == escaped_char(s[0]) + escaped(s.skip(1)),
    decreases s.len(),
{
    if s.len() == 1 {
        assert(s.drop_last() =~= Seq::<char>::empty());
        assert(s.skip(1) =~= Seq::<char>::empty());
        assert(escaped(s) =~= escaped_char(s[0]) + escaped(s.skip(1)));
    } else {
        lemma_escaped_front(s.drop_last());
        assert(s.drop_last().skip(1) =~= s.skip(1).drop_last());
        assert(s.skip(1).last() == s.last());
        assert(escaped(s) =~= escaped_char(s[0]) + escaped(s.skip(1)));
    }
}

/// Escaping loses nothing, and an escaped value holds no line end: it cannot
/// break the line it stands on.
pub proof fn law_escape_round_trip(s: Seq<char>)
    ensures
        unescaped(escaped(s)) == s,
        forall|i: int| 0 <= i < escaped(s).len() ==> #[trigger] escaped(s)[i] != '\n',
    decreases s.len(),
{
    if s.len() > 0 {
        lemma_escaped_front(s);
        law_escape_round_trip(s.skip(1));
        let e = escaped(s);
        let rest = escaped(s.skip(1));
        let head = escaped_char(s[0]);
        assert(e == head + rest);
        assert(e.skip(head.len() as int) =~= rest);
        assert forall|i: int| 0 <= i < e.len() implies #[trigger] e[i] != '\n' by {
            if i >= head.len() {
                assert(e[i] == rest[i - head.len()]);
            }
        }
        assert(seq![s[0]] + s.skip(1) =~= s);
        if head.len() == 2 {
            assert(e[0] == '\\' && e[1] == head[1]);
        } else {
            assert(e[0] == s[0]);
        }
    } else {
        assert(s =~= Seq::<char>::empty());
    }
}

/// The labels of a pool's metrics.
pub open spec fn labels(key: pool::KeyView) -> Seq<char> {
    "route=\""@ + escaped(key.route) + "\",user=\""@ + escaped(key.user) + "\",database=\""@
        + escaped(admin::database_name(key.database)) + "\""@
}

/// The lines of one metric of a pool.
#[verifier::opaque]
pub open spec fn metric_lines(
    name: Seq<char>,
    kind: Seq<char>,
    labels: Seq<char>,
    value: Seq<char>,
) -> Seq<char> {
    "# TYPE pgferry_pool_"@ + name + " "@ + kind + "\npgferry_pool_"@ + name + "{"@ + labels
        + "} "@ + value + "\n"@
}

/// The lines of a counter of a pool.
pub open spec fn counter_lines(name: Seq<char>, labels: Seq<char>, value: u64) -> Seq<char> {
    metric_lines(name + "_total"@, "counter"@, labels, text::decimal_int(value as int))
}

/// The lines of a gauge of a pool.
pub open spec fn gauge_lines(name: Seq<char>, labels: Seq<char>, value: int) -> Seq<char> {
    metric_lines(name, "gauge"@, labels, text::decimal_int(value))
}

/// The lines of a pool.
#[verifier::opaque]
pub open spec fn pool_lines(p: pool::StatusView) -> Seq<char> {
    let l = labels(p.key);
    counter_lines("checkouts"@, l, p.metrics.checkouts) + counter_lines(
        "checkouts_reused"@,
        l,
        p.metrics.reused,
    ) + counter_lines("connections_created"@, l, p.metrics.created) + counter_lines(
        "checkins"@,
        l,
        p.metrics.checked_in,
    ) + counter_lines("connections_dropped"@, l, p.metrics.dropped) + counter_lines(
        "connections_evicted"@,
        l,
        p.metrics.evicted,
    ) + counter_lines("stale_probes"@, l, p.metrics.probed) + gauge_lines(
        "connections_active"@,
        l,
        p.metrics.active as int,
    ) + gauge_lines("connections_idle"@, l, p.idle as int) + gauge_lines(
        "clients_waiting"@,
        l,
        p.metrics.waiting as int,
    ) + gauge_lines("max_size"@, l, p.max_size as int)
}

/// The lines of all pools.
pub open spec fn all_pool_lines(pools: Seq<pool::StatusView>) -> Seq<char>
    decreases pools.len(),
{
    if pools.len() == 0 {
        Seq::empty()
    } else {
        all_pool_lines(pools.drop_last()) + pool_lines(pools.last())
    }
}

/// The metrics of the proxy.
pub open spec fn rendered(active: nat, total: nat, pools: Seq<pool::StatusView>) -> Seq<char> {
    "# TYPE pgferry_sessions_active gauge\npgferry_sessions_active "@ + text::decimal(active)
        + "\n# TYPE pgferry_sessions_total counter\npgferry_sessions_total "@ + text::decimal(total)
        + "\n"@ + all_pool_lines(pools)
}

fn push_metric(out: &mut String, name: &str, kind: &str, labels: &str, value: i128)
    ensures
        final(out)@ == old(out)@ + metric_lines(
            name@,
            kind@,
            labels@,
            text::decimal_int(value as int),
        ),
{
    let ghost before = out@;
    out.append("# TYPE pgferry_pool_");
    out.append(name);
    out.append(" ");
    out.append(kind);
    out.append("\npgferry_pool_");
    out.append(name);
    out.append("{");
    out.append(labels);
    out.append("} ");
    out.append(text::decimal_int_text(value).as_str());
    out.append("\n");
    reveal(metric_lines);
    assert(out@ =~= before + metric_lines(
        name@,
        kind@,
        labels@,
        text::decimal_int(value as int),
    ));
}

fn push_counter(out: &mut String, name: &str, labels: &str, value: u64)
    ensures
        final(out)@ == old(out)@ + counter_lines(name@, labels@, value),
{
    let mut full = name.to_owned();
    full.append("_total");
    push_metric(out, full.as_str(), "counter", labels, value as i128);
}

fn push_gauge(out: &mut String, name: &str, labels: &str, value: i128)
    ensures
        final(out)@ == old(out)@ + gauge_lines(name@, labels@, value as int),
{
    push_metric(out, name, "gauge", labels, value);
}

fn push_pool(out: &mut String, p: &PoolStatus)
    ensures
        final(out)@ == old(out)@ + pool_lines(p@),
{
    let ghost before = out@;
    let database = match &p.key.database {
        Some(name) => name.clone(),
        None => String::new(),
    };
    let mut l = "route=\"".to_owned();
    l.append(escape(p.key.route.as_str()).as_str());
    l.append("\",user=\"");
    l.append(escape(p.key.user.as_str()).as_str());
    l.append("\",database=\"");
    l.append(escape(database.as_str()).as_str());
    l.append("\"");
    assert(l@ == labels(p@.key));
    push_counter(out, "checkouts", l.as_str(), p.metrics.checkouts);
    push_counter(out, "checkouts_reused", l.as_str(), p.metrics.reused);
    push_counter(out, "connections_created", l.as_str(), p.metrics.created);
    push_counter(out, "checkins", l.as_str(), p.metrics.checked_in);
    push_counter(out, "connections_dropped", l.as_str(), p.metrics.dropped);
    push_counter(out, "connections_evicted", l.as_str(), p.metrics.evicted);
    push_counter(out, "stale_probes", l.as_str(), p.metrics.probed);
    push_gauge(out, "connections_active", l.as_str(), p.metrics.active as i128);
    push_gauge(out, "connections_idle", l.as_str(), p.idle as i128);
    push_gauge(out, "clients_waiting", l.as_str(), p.metrics.waiting as i128);
    push_gauge(out, "max_size", l.as_str(), p.max_size as i128);
    reveal(pool_lines);
    assert(out@ =~= before + pool_lines(p@));
}

/// The lines of one more pool go behind those of the pools before it.
proof fn lemma_one_more_pool(head: Seq<char>, views: Seq<pool::StatusView>, i: int)
    requires
        0 <= i < views.len(),
    ensures
        head + all_pool_lines(views.take(i)) + pool_lines(views[i]) == head + all_pool_lines(
            views.take(i + 1),
        ),
{
    assert(views.take(i + 1).drop_last() =~= views.take(i));
    assert(views.take(i + 1).last() == views[i]);
    assert(head + all_pool_lines(views.take(i)) + pool_lines(views[i]) =~= head + (all_pool_lines(
        views.take(i),
    ) + pool_lines(views[i])));
}

/// Render the metrics in the Prometheus text format.
pub fn render(active: usize, total: u64, pools: &Vec<PoolStatus>) -> (r: String)
    ensures
        r@ == rendered(active as nat, total as nat, pool::status_views(pools@)),
{
    let ghost views = pool::status_views(pools@);
    let mut out =
        "# TYPE pgferry_sessions_active gauge\npgferry_sessions_active ".to_owned();
    text::push_decimal(&mut out, active as u128);
    out.append("\n# TYPE pgferry_sessions_total counter\npgferry_sessions_total ");
    text::push_decimal(&mut out, total as u128);
    out.append("\n");
    let ghost head = out@;
    let mut i: usize = 0;
    assert(views.take(0) =~= Seq::<pool::StatusView>::empty());
    assert(head + Seq::<char>::empty() =~= head);
    while i < pools.len()
        invariant
            i <= pools.len(),
            views == pool::status_views(pools@),
            out@ == head + all_pool_lines(views.take(i as int)),
        decreases pools.len() - i,
    {
        push_pool(&mut out, &pools[i]);
        proof {
            assert(views[i as int] == pools@[i as int]@);
            lemma_one_more_pool(head, views, i as int);
        }
        i += 1;
    }
    assert(views.take(pools.len() as int) =~= views);
    out
}

// ---------------------------------------------------------------------------
// the response
// ---------------------------------------------------------------------------

/// An HTTP response.
pub open spec fn response(status: Seq<char>, body: Seq<char>) -> Seq<char> {
    "HTTP/1.1 "@ + status
        + "\r\nContent-Type: text/plain; version=0.0.4\r\nContent-Length: "@ + text::decimal(
        encode_utf8(body).len(),
    ) + "\r\nConnection: close\r\n\r\n"@ + body
}

fn http_response(status: &str, body: &str) -> (r: String)
    ensures
        r@ == response(status@, body@),
{
    let size: usize = body.as_bytes_vec().len();
    let mut r = "HTTP/1.1 ".to_owned();
    r.append(status);
    r.append("\r\nContent-Type: text/plain; version=0.0.4\r\nContent-Length: ");
    text::push_decimal(&mut r, size as u128);
    r.append("\r\nConnection: close\r\n\r\n");
    r.append(body);
    r
}

/// The response to a request with this head.
pub open spec fn answered(
    head: Seq<char>,
    active: nat,
    total: nat,
    pools: Seq<pool::StatusView>,
) -> Seq<char> {
    if asks_metrics(head) {
        response("200 OK"@, rendered(active, total, pools))
    } else {
        response("404 Not Found"@, "not found\n"@)
    }
}

/// The response to a request whose head is known: the metrics, or not found.
pub fn answer(head: &str, active: usize, total: u64, pools: &Vec<PoolStatus>) -> (r: String)
    ensures
        r@ == answered(head@, active as nat, total as nat, pool::status_views(pools@)),
{
    if is_metrics_request(head) {
        let body = render(active, total, pools);
        http_response("200 OK", body.as_str())
    } else {
        http_response("404 Not Found", "not found\n")
    }
}

/// The response to the bytes of a request.
pub fn respond(request: &Vec<u8>, active: usize, total: u64, pools: &Vec<PoolStatus>) -> (r: String)
    ensures
        r@ == answered(
            lossy_text(request@),
            active as nat,
            total as nat,
            pool::status_views(pools@),
        ),
{
    let head = lossy(request.as_slice());
    answer(head.as_str(), active, total, pools)
}

} // verus!
