//! What the metrics page shows, and to whom: laws of the page as a whole.

use vstd::prelude::*;
use vstd::utf8::encode_utf8;

use crate::metrics::{
    all_pool_lines, answered, asks_metrics, escaped, first_line, labels, metric_lines, pool_lines, rendered,
    response, split_word, word,
};
use crate::{admin, pool, text};

verus! {

/// Whether a text holds a piece of text somewhere.
pub open spec fn has_line(text: Seq<char>, line: Seq<char>) -> bool {
    exists|i: int|
        0 <= i && i + line.len() <= text.len() && #[trigger] text.subrange(i, i + line.len())
            == line
}

/// The line with the value of a pool's metric.
pub open spec fn sample_line(name: Seq<char>, key: pool::KeyView, value: int) -> Seq<char> {
    "\npgferry_pool_"@ + name + "{route=\""@ + escaped(key.route) + "\",user=\""@ + escaped(
        key.user,
    ) + "\",database=\""@ + escaped(
        match key.database {
            Some(database) => database,
            None => Seq::empty(),
        },
    ) + "\"} "@ + text::decimal_int(value) + "\n"@
}

/// The line that declares a pool's metric.
pub open spec fn type_line(name: Seq<char>, kind: Seq<char>) -> Seq<char> {
    "# TYPE pgferry_pool_"@ + name + " "@ + kind + "\n"@
}

proof fn lemma_line_within(a: Seq<char>, m: Seq<char>, b: Seq<char>, line: Seq<char>)
    requires
        has_line(m, line),
    ensures
        has_line(a + m + b, line),
{
    let i = choose|i: int|
        0 <= i && i + line.len() <= m.len() && #[trigger] m.subrange(i, i + line.len()) == line;
    let whole = a + m + b;
    let k: int = a.len() + i;
    assert(whole.subrange(k, k + line.len()) =~= m.subrange(i, i + line.len()));
}

proof fn lemma_metric_lines(name: Seq<char>, kind: Seq<char>, key: pool::KeyView, value: int) -> (m:
    Seq<char>)
    ensures
        m == metric_lines(name, kind, labels(key), text::decimal_int(value)),
        has_line(m, sample_line(name, key, value)),
        has_line(m, type_line(name, kind)),
{
    let m = metric_lines(name, kind, labels(key), text::decimal_int(value));
    reveal(metric_lines);
    let sample = sample_line(name, key, value);
    let declared = type_line(name, kind);
    let head = "# TYPE pgferry_pool_"@ + name + " "@ + kind;
    reveal_strlit("\npgferry_pool_");
    reveal_strlit("\n");
    reveal_strlit("{");
    reveal_strlit("route=\"");
    reveal_strlit("{route=\"");
    reveal_strlit("\"");
    reveal_strlit("} ");
    reveal_strlit("\"} ");
    assert("{"@ + "route=\""@ =~= "{route=\""@);
    assert("\""@ + "} "@ =~= "\"} "@);
    let database = admin::database_name(key.database);
    let middle = escaped(key.route) + "\",user=\""@ + escaped(key.user) + "\",database=\""@
        + escaped(database);
    assert(sample =~= "\npgferry_pool_"@ + name + ("{"@ + "route=\""@) + middle + ("\""@ + "} "@)
        + text::decimal_int(value) + "\n"@);
    assert(labels(key) =~= "route=\""@ + middle + "\""@);
    assert(m =~= head + sample);
    let k: int = head.len() as int;
    assert(m.subrange(k, k + sample.len()) =~= sample);
    let n: int = declared.len() as int;
    assert(m.subrange(0, 0 + n) =~= declared);
    m
}

/// Texts, one after the other.
pub open spec fn joined(parts: Seq<Seq<char>>) -> Seq<char>
    decreases parts.len(),
{
    if parts.len() == 0 {
        Seq::empty()
    } else {
        joined(parts.drop_last()) + parts.last()
    }
}

proof fn lemma_part_within(parts: Seq<Seq<char>>, i: int, line: Seq<char>)
    requires
        0 <= i < parts.len(),
        has_line(parts[i], line),
    ensures
        has_line(joined(parts), line),
    decreases parts.len(),
{
    let before = joined(parts.drop_last());
    if i == parts.len() - 1 {
        lemma_line_within(before, parts[i], Seq::empty(), line);
        assert(before + parts[i] + Seq::<char>::empty() =~= before + parts[i]);
    } else {
        lemma_part_within(parts.drop_last(), i, line);
        lemma_line_within(Seq::empty(), before, parts.last(), line);
        assert(Seq::<char>::empty() + before + parts.last() =~= before + parts.last());
    }
}

proof fn lemma_joined(
    m0: Seq<char>,
    m1: Seq<char>,
    m2: Seq<char>,
    m3: Seq<char>,
    m4: Seq<char>,
    m5: Seq<char>,
    m6: Seq<char>,
    m7: Seq<char>,
    m8: Seq<char>,
    m9: Seq<char>,
    m10: Seq<char>,
)
    ensures
        joined(seq![m0, m1, m2, m3, m4, m5, m6, m7, m8, m9, m10]) == m0 + m1 + m2 + m3 + m4 + m5 + m6 + m7 + m8 + m9 + m10,
{
    let p0 = Seq::<Seq<char>>::empty();
    let p1 = p0.push(m0);
    let p2 = p1.push(m1);
    let p3 = p2.push(m2);
    let p4 = p3.push(m3);
    let p5 = p4.push(m4);
    let p6 = p5.push(m5);
    let p7 = p6.push(m6);
    let p8 = p7.push(m7);
    let p9 = p8.push(m8);
    let p10 = p9.push(m9);
    let p11 = p10.push(m10);
    assert(p1.drop_last() =~= p0);
    assert(p2.drop_last() =~= p1);
    assert(p3.drop_last() =~= p2);
    assert(p4.drop_last() =~= p3);
    assert(p5.drop_last() =~= p4);
    assert(p6.drop_last() =~= p5);
    assert(p7.drop_last() =~= p6);
    assert(p8.drop_last() =~= p7);
    assert(p9.drop_last() =~= p8);
    assert(p10.drop_last() =~= p9);
    assert(p11.drop_last() =~= p10);
    assert(joined(p0) =~= Seq::<char>::empty());
    assert(joined(p1) =~= m0) by {
        assert(p1.last() == m0);
        assert(joined(p1) == joined(p0) + m0);
    }
    assert(joined(p2) == m0 + m1);
    assert(joined(p3) == m0 + m1 + m2);
    assert(joined(p4) == m0 + m1 + m2 + m3);
    assert(joined(p5) == m0 + m1 + m2 + m3 + m4);
    assert(joined(p6) == m0 + m1 + m2 + m3 + m4 + m5);
    assert(joined(p7) == m0 + m1 + m2 + m3 + m4 + m5 + m6);
    assert(joined(p8) == m0 + m1 + m2 + m3 + m4 + m5 + m6 + m7);
    assert(joined(p9) == m0 + m1 + m2 + m3 + m4 + m5 + m6 + m7 + m8);
    assert(joined(p10) == m0 + m1 + m2 + m3 + m4 + m5 + m6 + m7 + m8 + m9);
    assert(joined(p11) == m0 + m1 + m2 + m3 + m4 + m5 + m6 + m7 + m8 + m9 + m10);
    assert(seq![m0, m1, m2, m3, m4, m5, m6, m7, m8, m9, m10] =~= p11);
}

/// Every metric of a pool is shown: its line has the pool's labels and the value
/// of the counter or gauge that its name stands for, and another one says which
/// of the two it is.
pub proof fn law_pool_metrics_shown(p: pool::StatusView)
    ensures
        has_line(pool_lines(p), sample_line("checkouts"@ + "_total"@, p.key, p.metrics.checkouts as int)),
        has_line(pool_lines(p), type_line("checkouts"@ + "_total"@, "counter"@)),
        has_line(pool_lines(p), sample_line("checkouts_reused"@ + "_total"@, p.key, p.metrics.reused as int)),
        has_line(pool_lines(p), type_line("checkouts_reused"@ + "_total"@, "counter"@)),
        has_line(pool_lines(p), sample_line("connections_created"@ + "_total"@, p.key, p.metrics.created as int)),
        has_line(pool_lines(p), type_line("connections_created"@ + "_total"@, "counter"@)),
        has_line(pool_lines(p), sample_line("checkins"@ + "_total"@, p.key, p.metrics.checked_in as int)),
        has_line(pool_lines(p), type_line("checkins"@ + "_total"@, "counter"@)),
        has_line(pool_lines(p), sample_line("connections_dropped"@ + "_total"@, p.key, p.metrics.dropped as int)),
        has_line(pool_lines(p), type_line("connections_dropped"@ + "_total"@, "counter"@)),
        has_line(pool_lines(p), sample_line("connections_evicted"@ + "_total"@, p.key, p.metrics.evicted as int)),
        has_line(pool_lines(p), type_line("connections_evicted"@ + "_total"@, "counter"@)),
        has_line(pool_lines(p), sample_line("stale_probes"@ + "_total"@, p.key, p.metrics.probed as int)),
        has_line(pool_lines(p), type_line("stale_probes"@ + "_total"@, "counter"@)),
        has_line(pool_lines(p), sample_line("connections_active"@, p.key, p.metrics.active as int)),
        has_line(pool_lines(p), type_line("connections_active"@, "gauge"@)),
        has_line(pool_lines(p), sample_line("connections_idle"@, p.key, p.idle as int)),
        has_line(pool_lines(p), type_line("connections_idle"@, "gauge"@)),
        has_line(pool_lines(p), sample_line("clients_waiting"@, p.key, p.metrics.waiting as int)),
        has_line(pool_lines(p), type_line("clients_waiting"@, "gauge"@)),
        has_line(pool_lines(p), sample_line("max_size"@, p.key, p.max_size as int)),
        has_line(pool_lines(p), type_line("max_size"@, "gauge"@)),
{
    let m0 = lemma_metric_lines("checkouts"@ + "_total"@, "counter"@, p.key, p.metrics.checkouts as int);
    let m1 = lemma_metric_lines("checkouts_reused"@ + "_total"@, "counter"@, p.key, p.metrics.reused as int);
    let m2 = lemma_metric_lines("connections_created"@ + "_total"@, "counter"@, p.key, p.metrics.created as int);
    let m3 = lemma_metric_lines("checkins"@ + "_total"@, "counter"@, p.key, p.metrics.checked_in as int);
    let m4 = lemma_metric_lines("connections_dropped"@ + "_total"@, "counter"@, p.key, p.metrics.dropped as int);
    let m5 = lemma_metric_lines("connections_evicted"@ + "_total"@, "counter"@, p.key, p.metrics.evicted as int);
    let m6 = lemma_metric_lines("stale_probes"@ + "_total"@, "counter"@, p.key, p.metrics.probed as int);
    let m7 = lemma_metric_lines("connections_active"@, "gauge"@, p.key, p.metrics.active as int);
    let m8 = lemma_metric_lines("connections_idle"@, "gauge"@, p.key, p.idle as int);
    let m9 = lemma_metric_lines("clients_waiting"@, "gauge"@, p.key, p.metrics.waiting as int);
    let m10 = lemma_metric_lines("max_size"@, "gauge"@, p.key, p.max_size as int);
    let parts = seq![m0, m1, m2, m3, m4, m5, m6, m7, m8, m9, m10];
    lemma_joined(m0, m1, m2, m3, m4, m5, m6, m7, m8, m9, m10);
    reveal(pool_lines);
    assert(pool_lines(p) == joined(parts));
    lemma_part_within(parts, 0, sample_line("checkouts"@ + "_total"@, p.key, p.metrics.checkouts as int));
    lemma_part_within(parts, 0, type_line("checkouts"@ + "_total"@, "counter"@));
    lemma_part_within(parts, 1, sample_line("checkouts_reused"@ + "_total"@, p.key, p.metrics.reused as int));
    lemma_part_within(parts, 1, type_line("checkouts_reused"@ + "_total"@, "counter"@));
    lemma_part_within(parts, 2, sample_line("connections_created"@ + "_total"@, p.key, p.metrics.created as int));
    lemma_part_within(parts, 2, type_line("connections_created"@ + "_total"@, "counter"@));
    lemma_part_within(parts, 3, sample_line("checkins"@ + "_total"@, p.key, p.metrics.checked_in as int));
    lemma_part_within(parts, 3, type_line("checkins"@ + "_total"@, "counter"@));
    lemma_part_within(parts, 4, sample_line("connections_dropped"@ + "_total"@, p.key, p.metrics.dropped as int));
    lemma_part_within(parts, 4, type_line("connections_dropped"@ + "_total"@, "counter"@));
    lemma_part_within(parts, 5, sample_line("connections_evicted"@ + "_total"@, p.key, p.metrics.evicted as int));
    lemma_part_within(parts, 5, type_line("connections_evicted"@ + "_total"@, "counter"@));
    lemma_part_within(parts, 6, sample_line("stale_probes"@ + "_total"@, p.key, p.metrics.probed as int));
    lemma_part_within(parts, 6, type_line("stale_probes"@ + "_total"@, "counter"@));
    lemma_part_within(parts, 7, sample_line("connections_active"@, p.key, p.metrics.active as int));
    lemma_part_within(parts, 7, type_line("connections_active"@, "gauge"@));
    lemma_part_within(parts, 8, sample_line("connections_idle"@, p.key, p.idle as int));
    lemma_part_within(parts, 8, type_line("connections_idle"@, "gauge"@));
    lemma_part_within(parts, 9, sample_line("clients_waiting"@, p.key, p.metrics.waiting as int));
    lemma_part_within(parts, 9, type_line("clients_waiting"@, "gauge"@));
    lemma_part_within(parts, 10, sample_line("max_size"@, p.key, p.max_size as int));
    lemma_part_within(parts, 10, type_line("max_size"@, "gauge"@));
}

proof fn lemma_regrouped(a: Seq<char>, b: Seq<char>, c: Seq<char>, d: Seq<char>)
    ensures
        (a + b) + c == a + (b + c),
        a + (b + c + d) == a + b + c + d,
        has_line(a + b + c + d, c),
        a + Seq::<char>::empty() == a,
        Seq::<char>::empty() + a == a,
{
    assert((a + b) + c =~= a + (b + c));
    assert(a + (b + c + d) =~= a + b + c + d);
    assert(a + Seq::<char>::empty() =~= a);
    assert(Seq::<char>::empty() + a =~= a);
    let k: int = (a + b).len() as int;
    assert((a + b + c + d).subrange(k, k + c.len()) =~= c);
}

proof fn lemma_all_pool_lines(a: Seq<pool::StatusView>, b: Seq<pool::StatusView>)
    ensures
        all_pool_lines(a + b) == all_pool_lines(a) + all_pool_lines(b),
    decreases b.len(),
{
    if b.len() == 0 {
        assert(a + b =~= a);
        lemma_regrouped(all_pool_lines(a), Seq::empty(), Seq::empty(), Seq::empty());
    } else {
        lemma_all_pool_lines(a, b.drop_last());
        assert((a + b).drop_last() =~= a + b.drop_last());
        lemma_regrouped(
            all_pool_lines(a),
            all_pool_lines(b.drop_last()),
            pool_lines(b.last()),
            Seq::empty(),
        );
    }
}

/// The page has the sessions that are active, the sessions so far, and then the
/// lines of every pool, one pool after the other.
pub proof fn law_page(
    active: nat,
    total: nat,
    a: Seq<pool::StatusView>,
    p: pool::StatusView,
    b: Seq<pool::StatusView>,
)
    ensures
        ({
            let page = rendered(active, total, a + seq![p] + b);
            let head = "# TYPE pgferry_sessions_active gauge\npgferry_sessions_active "@
                + text::decimal(active)
                + "\n# TYPE pgferry_sessions_total counter\npgferry_sessions_total "@
                + text::decimal(total) + "\n"@;
            &&& page == head + all_pool_lines(a) + pool_lines(p) + all_pool_lines(b)
            &&& has_line(page, pool_lines(p))
        }),
        all_pool_lines(seq![]) == Seq::<char>::empty(),
{
    let page = rendered(active, total, a + seq![p] + b);
    let head = "# TYPE pgferry_sessions_active gauge\npgferry_sessions_active "@ + text::decimal(
        active,
    ) + "\n# TYPE pgferry_sessions_total counter\npgferry_sessions_total "@ + text::decimal(total)
        + "\n"@;
    lemma_all_pool_lines(a + seq![p], b);
    lemma_all_pool_lines(a, seq![p]);
    reveal_with_fuel(all_pool_lines, 2);
    assert(seq![p].drop_last() =~= seq![]);
    lemma_regrouped(pool_lines(p), Seq::empty(), Seq::empty(), Seq::empty());
    lemma_regrouped(head, all_pool_lines(a), pool_lines(p), all_pool_lines(b));
}

/// A response has the status in its first line, tells the number of bytes of its
/// body, and ends with the body after an empty line.
pub proof fn law_response(status: Seq<char>, body: Seq<char>)
    ensures
        ({
            let r = response(status, body);
            let start = "HTTP/1.1 "@ + status + "\r\n"@;
            let end = "\r\n\r\n"@ + body;
            &&& start.len() + end.len() <= r.len()
            &&& r.take(start.len() as int) == start
            &&& r.skip(r.len() - end.len()) == end
            &&& has_line(
                r,
                "Content-Length: "@ + text::decimal(encode_utf8(body).len()) + "\r\n"@,
            )
        }),
{
    let r = response(status, body);
    let start = "HTTP/1.1 "@ + status + "\r\n"@;
    let end = "\r\n\r\n"@ + body;
    let size = text::decimal(encode_utf8(body).len());
    let line = "Content-Length: "@ + size + "\r\n"@;
    reveal_strlit("\r\n");
    reveal_strlit("\r\n\r\n");
    reveal_strlit("Content-Length: ");
    reveal_strlit("Content-Type: text/plain; version=0.0.4\r\n");
    reveal_strlit("Connection: close");
    reveal_strlit("\r\nConnection: close\r\n\r\n");
    reveal_strlit("\r\nContent-Type: text/plain; version=0.0.4\r\nContent-Length: ");
    assert("\r\nContent-Type: text/plain; version=0.0.4\r\nContent-Length: "@ =~= "\r\n"@
        + "Content-Type: text/plain; version=0.0.4\r\n"@ + "Content-Length: "@);
    assert("\r\nConnection: close\r\n\r\n"@ =~= "\r\n"@ + "Connection: close"@ + "\r\n\r\n"@);
    let kind = "Content-Type: text/plain; version=0.0.4\r\n"@;
    let last = "Connection: close"@;
    assert(r =~= start + kind + line + last + end);
    assert(r.take(start.len() as int) =~= start);
    assert(r.skip(r.len() - end.len()) =~= end);
    let k: int = (start + kind).len() as int;
    assert(r.subrange(k, k + line.len()) =~= line);
}

proof fn lemma_first_line(a: Seq<char>, b: Seq<char>)
    requires
        forall|i: int| 0 <= i < a.len() ==> #[trigger] a[i] != '\n',
        b.len() > 0 ==> b[0] == '\n',
    ensures
        first_line(a + b) == a,
    decreases a.len(),
{
    if a.len() == 0 {
        assert(a + b =~= b);
        assert(a =~= Seq::empty());
    } else {
        assert((a + b)[0] == a[0]);
        assert((a + b).skip(1) =~= a.skip(1) + b);
        assert forall|i: int| 0 <= i < a.skip(1).len() implies #[trigger] a.skip(1)[i] != '\n' by {
            assert(a.skip(1)[i] == a[i + 1]);
        }
        lemma_first_line(a.skip(1), b);
        assert(seq![a[0]] + a.skip(1) =~= a);
    }
}

/// Whether a text is a word: not empty, and without white space.
pub open spec fn is_word(s: Seq<char>) -> bool {
    s.len() > 0 && forall|i: int| 0 <= i < s.len() ==> !text::is_white_space(#[trigger] s[i])
}

proof fn lemma_word(w: Seq<char>, rest: Seq<char>)
    requires
        forall|i: int| 0 <= i < w.len() ==> !text::is_white_space(#[trigger] w[i]),
        rest.len() > 0 ==> text::is_white_space(rest[0]),
    ensures
        word(w + rest) == w,
    decreases w.len(),
{
    if w.len() == 0 {
        assert(w + rest =~= rest);
        assert(w =~= Seq::empty());
    } else {
        assert((w + rest)[0] == w[0]);
        assert((w + rest).skip(1) =~= w.skip(1) + rest);
        assert forall|i: int| 0 <= i < w.skip(1).len() implies !text::is_white_space(
            #[trigger] w.skip(1)[i],
        ) by {
            assert(w.skip(1)[i] == w[i + 1]);
        }
        lemma_word(w.skip(1), rest);
        assert(seq![w[0]] + w.skip(1) =~= w);
    }
}

proof fn lemma_split_word(blank: Seq<char>, w: Seq<char>, rest: Seq<char>)
    requires
        text::all_white(blank),
        is_word(w),
        rest.len() > 0 ==> text::is_white_space(rest[0]),
    ensures
        split_word(blank + w + rest) == (w, rest),
{
    let t = w + rest;
    assert(t[0] == w[0]);
    assert(blank + w + rest =~= blank + t);
    lemma_trimmed(blank, t);
    lemma_word(w, rest);
    assert(t.skip(w.len() as int) =~= rest);
}

proof fn lemma_trimmed(blank: Seq<char>, t: Seq<char>)
    requires
        text::all_white(blank),
        t.len() > 0,
        !text::is_white_space(t[0]),
    ensures
        text::trim_start(blank + t) == t,
    decreases blank.len(),
{
    if blank.len() == 0 {
        assert(blank + t =~= t);
    } else {
        assert((blank + t)[0] == blank[0]);
        assert((blank + t).skip(1) =~= blank.skip(1) + t);
        assert forall|i: int| 0 <= i < blank.skip(1).len() implies text::is_white_space(
            #[trigger] blank.skip(1)[i],
        ) by {
            assert(blank.skip(1)[i] == blank[i + 1]);
        }
        lemma_trimmed(blank.skip(1), t);
    }
}

/// A request is one for the metrics exactly when the first two words of its
/// first line are `GET` and `/metrics`; nothing behind them matters.
pub proof fn law_asks_metrics(
    method: Seq<char>,
    blank: Seq<char>,
    path: Seq<char>,
    rest: Seq<char>,
    more: Seq<char>,
)
    requires
        is_word(method),
        is_word(path),
        blank.len() > 0,
        text::all_white(blank),
        rest.len() > 0 ==> text::is_white_space(rest[0]),
        forall|i: int| 0 <= i < blank.len() ==> #[trigger] blank[i] != '\n',
        forall|i: int| 0 <= i < rest.len() ==> #[trigger] rest[i] != '\n',
        more.len() > 0 ==> more[0] == '\n',
    ensures
        asks_metrics(method + blank + path + rest + more) <==> method == "GET"@ && path
            == "/metrics"@,
        !asks_metrics(method + more),
{
    let line = method + blank + path + rest;
    assert(text::is_white_space('\n'));
    assert forall|i: int| 0 <= i < line.len() implies #[trigger] line[i] != '\n' by {
        if i < method.len() {
            assert(line[i] == method[i]);
        } else if i < method.len() + blank.len() {
            assert(line[i] == blank[i - method.len()]);
        } else if i < method.len() + blank.len() + path.len() {
            assert(line[i] == path[i - method.len() - blank.len()]);
        } else {
            assert(line[i] == rest[i - method.len() - blank.len() - path.len()]);
        }
    }
    lemma_first_line(line, more);
    let behind = blank + path + rest;
    assert(line =~= Seq::<char>::empty() + method + behind);
    assert(behind[0] == blank[0]);
    lemma_split_word(Seq::empty(), method, behind);
    lemma_split_word(blank, path, rest);
    assert forall|i: int| 0 <= i < method.len() implies #[trigger] method[i] != '\n' by {}
    lemma_first_line(method, more);
    assert(method =~= Seq::<char>::empty() + method + Seq::<char>::empty());
    lemma_split_word(Seq::empty(), method, Seq::empty());
    reveal_strlit("/metrics");
    assert(text::trim_start(Seq::<char>::empty()) =~= Seq::<char>::empty());
    assert(word(Seq::<char>::empty()) =~= Seq::<char>::empty());
}

/// Who asks for the metrics gets the page, and who asks for anything else is told
/// that it is not there and gets no numbers.
pub proof fn law_answered(
    head: Seq<char>,
    active: nat,
    total: nat,
    pools: Seq<pool::StatusView>,
    other_pools: Seq<pool::StatusView>,
)
    ensures
        asks_metrics(head) ==> answered(head, active, total, pools) == response(
            "200 OK"@,
            rendered(active, total, pools),
        ),
        !asks_metrics(head) ==> answered(head, active, total, pools) == response(
            "404 Not Found"@,
            "not found\n"@,
        ),
        !asks_metrics(head) ==> answered(head, active, total, pools) == answered(
            head,
            0,
            0,
            other_pools,
        ),
{
}

} // verus!
