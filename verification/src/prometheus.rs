//! The Prometheus text exposition format of a metrics registry.
use vstd::prelude::*;

use crate::metrics::{prefix_sum, Counter, Gauge, HistogramCounts, Labels};
use crate::registry::MetricsRegistry;
use crate::text::{
    chars_of, decimal, lex_le, lemma_lex_total, lemma_lex_trans, push_char, push_decimal,
    push_signed_decimal, push_text, signed_decimal, sort_texts, text_views,
};

verus! {

/// How one character of a label value is written: backslash, double quote
/// and newline are escaped with a backslash.
pub open spec fn escape_char(c: char) -> Seq<char> {
    if c == '\\' {
        seq!['\\', '\\']
    } else if c == '"' {
        seq!['\\', '"']
    } else if c == '\n' {
        seq!['\\', 'n']
    } else {
        seq![c]
    }
}

/// A label value with every character escaped as [`escape_char`] says.
pub open spec fn escape_text(s: Seq<char>) -> Seq<char>
    decreases s.len(),
{
    if s.len() == 0 {
        Seq::empty()
    } else {
        escape_text(s.drop_last()) + escape_char(s.last())
    }
}

/// Escapes special characters in label values according to Prometheus format.
pub fn escape_label_value(value: &str) -> (r: String)
    ensures
        r@ == escape_text(value@),
{
    let cs = chars_of(value);
    let mut out = String::new();
    let mut i: usize = 0;
    while i < cs.len()
        invariant
            0 <= i <= cs@.len(),
            cs@ == value@,
            out@ == escape_text(value@.subrange(0, i as int)),
        decreases cs@.len() - i,
    {
        let c = cs[i];
        if c == '\\' {
            push_char(&mut out, '\\');
            push_char(&mut out, '\\');
        } else if c == '"' {
            push_char(&mut out, '\\');
            push_char(&mut out, '"');
        } else if c == '\n' {
            push_char(&mut out, '\\');
            push_char(&mut out, 'n');
        } else {
            push_char(&mut out, c);
        }
        assert(value@.subrange(0, i + 1).drop_last() =~= value@.subrange(0, i as int));
        i = i + 1;
        assert(out@ =~= escape_text(value@.subrange(0, i as int)));
    }
    assert(value@.subrange(0, value@.len() as int) =~= value@);
    out
}

/// The text `key="escaped value"` of one label.
pub open spec fn pair_text(e: (Seq<char>, Seq<char>)) -> Seq<char> {
    e.0 + seq!['=', '"'] + escape_text(e.1) + seq!['"']
}

/// The texts of the labels, in the order of the entries.
pub open spec fn pair_texts(entries: Seq<(Seq<char>, Seq<char>)>) -> Seq<Seq<char>> {
    entries.map_values(|e: (Seq<char>, Seq<char>)| pair_text(e))
}

/// Lexicographic order as a relation.
pub open spec fn lex_order() -> spec_fn(Seq<char>, Seq<char>) -> bool {
    |a: Seq<char>, b: Seq<char>| lex_le(a, b)
}

/// The texts joined with `sep` between consecutive ones.
pub open spec fn join_texts(texts: Seq<Seq<char>>, sep: Seq<char>) -> Seq<char>
    decreases texts.len(),
{
    if texts.len() == 0 {
        Seq::empty()
    } else if texts.len() == 1 {
        texts[0]
    } else {
        join_texts(texts.drop_last(), sep) + sep + texts.last()
    }
}

/// `{a,b,...}` for a non-empty list of label texts, nothing for an empty one.
pub open spec fn braced(texts: Seq<Seq<char>>) -> Seq<char> {
    if texts.len() == 0 {
        Seq::empty()
    } else {
        seq!['{'] + join_texts(texts, seq![',']) + seq!['}']
    }
}

/// The label set of a metric as written after its name: the label texts in
/// lexicographic order, comma-separated in braces; nothing without labels.
pub open spec fn labels_text(entries: Seq<(Seq<char>, Seq<char>)>) -> Seq<char> {
    braced(pair_texts(entries).sort_by(lex_order()))
}

/// Lexicographic order is a total order.
pub proof fn lemma_lex_order_total()
    ensures
        vstd::relations::total_ordering(lex_order()),
{
    assert forall|x: Seq<char>| #[trigger] lex_order()(x, x) by {
        lemma_lex_total(x, x);
    }
    assert forall|x: Seq<char>, y: Seq<char>| #[trigger] lex_order()(x, y) && #[trigger] lex_order()(
        y,
        x,
    ) implies x == y by {
        lemma_lex_antisym(x, y);
    }
    assert forall|x: Seq<char>, y: Seq<char>, z: Seq<char>| #[trigger] lex_order()(x, y)
        && #[trigger] lex_order()(y, z) implies lex_order()(x, z) by {
        lemma_lex_trans(x, y, z);
    }
    assert forall|x: Seq<char>, y: Seq<char>| #[trigger] lex_order()(x, y) || #[trigger] lex_order()(
        y,
        x,
    ) by {
        lemma_lex_total(x, y);
    }
}

/// Two texts each no later than the other are equal.
pub proof fn lemma_lex_antisym(a: Seq<char>, b: Seq<char>)
    requires
        lex_le(a, b),
        lex_le(b, a),
    ensures
        a == b,
    decreases a.len(),
{
    if a.len() > 0 && b.len() > 0 {
        lemma_lex_antisym(a.drop_first(), b.drop_first());
        assert(a =~= seq![a[0]] + a.drop_first());
        assert(b =~= seq![b[0]] + b.drop_first());
    }
}

/// Formats labels as a Prometheus label string `{key1="value1",key2="value2"}`,
/// with the pairs sorted, or the empty string when there are no labels.
pub fn format_labels(labels: &Labels) -> (r: String)
    ensures
        r@ == labels_text(labels.entries_view()),
{
    let pairs = labels.pairs();
    let mut texts: Vec<String> = Vec::new();
    let mut i: usize = 0;
    let ghost e = labels.entries_view();
    while i < pairs.len()
        invariant
            0 <= i <= pairs@.len(),
            e == crate::metrics::pair_views(pairs@),
            text_views(texts@) == pair_texts(e).subrange(0, i as int),
        decreases pairs@.len() - i,
    {
        let mut t = String::new();
        push_text(&mut t, pairs[i].0.as_str());
        push_char(&mut t, '=');
        push_char(&mut t, '"');
        let esc = escape_label_value(pairs[i].1.as_str());
        push_text(&mut t, esc.as_str());
        push_char(&mut t, '"');
        assert(t@ =~= pair_text(e[i as int]));
        let ghost before = texts@;
        texts.push(t);
        proof {
            let tv = text_views(texts@);
            let target = pair_texts(e).subrange(0, i + 1);
            assert(text_views(before).len() == before.len());
            assert(before.len() == i);
            assert(texts@.len() == i + 1);
            assert(tv.len() == i + 1);
            assert(target.len() == i + 1);
            assert forall|j: int| 0 <= j < i + 1 implies tv[j] == target[j] by {
                if j < i {
                    assert(texts@[j] == before[j]);
                    assert(text_views(before)[j] == before[j]@);
                } else {
                    assert(texts@[j] == t);
                }
            }
            assert(tv =~= target);
        }
        i = i + 1;
    }
    assert(pair_texts(e).subrange(0, pairs@.len() as int) =~= pair_texts(e));
    let sorted = sort_texts(texts);
    proof {
        lemma_lex_order_total();
        pair_texts(e).lemma_sort_by_ensures(lex_order());
        let sv = text_views(sorted@);
        assert(vstd::relations::sorted_by(sv, lex_order())) by {
            assert forall|a: int, b: int| 0 <= a < b < sv.len() implies #[trigger] lex_order()(
                sv[a],
                sv[b],
            ) by {
                assert(lex_le(sv[a], sv[b]));
            }
        }
        vstd::seq_lib::lemma_sorted_unique(sv, pair_texts(e).sort_by(lex_order()), lex_order());
    }
    let mut out = String::new();
    if sorted.len() == 0 {
        return out;
    }
    push_char(&mut out, '{');
    let ghost sv = text_views(sorted@);
    let mut j: usize = 0;
    while j < sorted.len()
        invariant
            0 <= j <= sorted@.len(),
            sorted@.len() >= 1,
            sv == text_views(sorted@),
            out@ == seq!['{'] + join_texts(sv.subrange(0, j as int), seq![',']),
        decreases sorted@.len() - j,
    {
        if j > 0 {
            push_char(&mut out, ',');
        }
        push_text(&mut out, sorted[j].as_str());
        proof {
            let sub = sv.subrange(0, j + 1);
            assert(sub.drop_last() =~= sv.subrange(0, j as int));
            if j == 0 {
                assert(join_texts(sub, seq![',']) == sub[0]);
            }
        }
        j = j + 1;
        assert(out@ =~= seq!['{'] + join_texts(sv.subrange(0, j as int), seq![',']));
    }
    assert(sv.subrange(0, sorted@.len() as int) =~= sv);
    push_char(&mut out, '}');
    out
}

/// The `# HELP` and `# TYPE` lines of a metric.
pub open spec fn header_text(name: Seq<char>, word: Seq<char>, kind: Seq<char>) -> Seq<char> {
    "# HELP "@ + name + " "@ + word + " metric\n"@ + "# TYPE "@ + name + " "@ + kind + "\n"@
}

/// The lines of one counter.
pub open spec fn counter_text(name: Seq<char>, labels: Seq<(Seq<char>, Seq<char>)>, value: u64) -> Seq<char> {
    header_text(name, "Counter"@, "counter"@) + name + labels_text(labels) + " "@ + decimal(
        value as nat,
    ) + "\n"@
}

/// The lines of one gauge.
pub open spec fn gauge_text(name: Seq<char>, labels: Seq<(Seq<char>, Seq<char>)>, value: i64) -> Seq<char> {
    header_text(name, "Gauge"@, "gauge"@) + name + labels_text(labels) + " "@ + signed_decimal(
        value as int,
    ) + "\n"@
}

/// The label set of a bucket line: the metric's labels with `le` added last.
pub open spec fn bucket_label(prefix: Seq<char>, bound: Seq<char>) -> Seq<char> {
    if prefix.len() == 0 {
        "{le=\""@ + bound + "\"}"@
    } else {
        prefix.drop_last() + ",le=\""@ + bound + "\"}"@
    }
}

/// Bucket lines `i..` of a histogram; each carries the cumulative count of
/// its bucket and all before it.
pub open spec fn bucket_lines(
    name: Seq<char>,
    prefix: Seq<char>,
    bounds: Seq<Seq<char>>,
    counts: Seq<u64>,
    n: int,
) -> Seq<char>
    decreases n,
{
    if n <= 0 {
        Seq::empty()
    } else {
        bucket_lines(name, prefix, bounds, counts, n - 1) + name + "_bucket"@ + bucket_label(
            prefix,
            bounds[n - 1],
        ) + " "@ + decimal(prefix_sum(counts, n) as nat) + "\n"@
    }
}

/// The overflow bucket, sum and count lines of a histogram.
pub open spec fn histogram_tail(
    name: Seq<char>,
    prefix: Seq<char>,
    total: int,
    count: u64,
    sum: Seq<char>,
) -> Seq<char> {
    name + "_bucket"@ + bucket_label(prefix, "+Inf"@) + " "@ + decimal(total as nat) + "\n"@ + name
        + "_sum"@ + prefix + " "@ + sum + "\n"@ + name + "_count"@ + prefix + " "@ + decimal(
        count as nat,
    ) + "\n"@
}

/// The lines of one histogram, with `sum` the text of its sum.
pub open spec fn histogram_text(
    name: Seq<char>,
    labels: Seq<(Seq<char>, Seq<char>)>,
    bounds: Seq<Seq<char>>,
    counts: Seq<u64>,
    count: u64,
    sum: Seq<char>,
) -> Seq<char> {
    let prefix = labels_text(labels);
    header_text(name, "Histogram"@, "histogram"@) + bucket_lines(
        name,
        prefix,
        bounds,
        counts,
        bounds.len() as int,
    ) + histogram_tail(name, prefix, prefix_sum(counts, counts.len() as int), count, sum)
}

/// The counters' lines, in order.
pub open spec fn counters_text(cs: Seq<Counter>) -> Seq<char>
    decreases cs.len(),
{
    if cs.len() == 0 {
        Seq::empty()
    } else {
        let c = cs.last();
        counters_text(cs.drop_last()) + counter_text(
            c.spec_name(),
            c.spec_label_entries(),
            c.spec_value(),
        )
    }
}

/// The gauges' lines, in order.
pub open spec fn gauges_text(gs: Seq<Gauge>) -> Seq<char>
    decreases gs.len(),
{
    if gs.len() == 0 {
        Seq::empty()
    } else {
        let g = gs.last();
        gauges_text(gs.drop_last()) + gauge_text(g.spec_name(), g.spec_label_entries(), g.spec_value())
    }
}

/// The histograms' lines, in order, each with its sum text.
pub open spec fn histograms_text(hs: Seq<HistogramCounts>, sums: Seq<Seq<char>>) -> Seq<char>
    decreases hs.len(),
{
    if hs.len() == 0 {
        Seq::empty()
    } else {
        let h = hs.last();
        histograms_text(hs.drop_last(), sums) + histogram_text(
            h.spec_name(),
            h.spec_label_entries(),
            h.spec_bounds(),
            h.spec_counts(),
            h.spec_count(),
            sums[hs.len() - 1],
        )
    }
}

fn push_header(out: &mut String, name: &str, word: &str, kind: &str)
    ensures
        final(out)@ == old(out)@ + header_text(name@, word@, kind@),
{
    push_text(out, "# HELP ");
    push_text(out, name);
    push_text(out, " ");
    push_text(out, word);
    push_text(out, " metric\n");
    push_text(out, "# TYPE ");
    push_text(out, name);
    push_text(out, " ");
    push_text(out, kind);
    push_text(out, "\n");
    assert(out@ =~= old(out)@ + header_text(name@, word@, kind@));
}

/// Appends the lines of a counter.
pub fn write_counter(out: &mut String, c: &Counter)
    ensures
        final(out)@ == old(out)@ + counter_text(c.spec_name(), c.spec_label_entries(), c.spec_value()),
{
    push_header(out, c.name(), "Counter", "counter");
    push_text(out, c.name());
    let labels = format_labels(c.labels());
    push_text(out, labels.as_str());
    push_text(out, " ");
    push_decimal(out, c.get());
    push_text(out, "\n");
    assert(out@ =~= old(out)@ + counter_text(c.spec_name(), c.spec_label_entries(), c.spec_value()));
}

/// Appends the lines of a gauge.
pub fn write_gauge(out: &mut String, g: &Gauge)
    ensures
        final(out)@ == old(out)@ + gauge_text(g.spec_name(), g.spec_label_entries(), g.spec_value()),
{
    push_header(out, g.name(), "Gauge", "gauge");
    push_text(out, g.name());
    let labels = format_labels(g.labels());
    push_text(out, labels.as_str());
    push_text(out, " ");
    push_signed_decimal(out, g.get());
    push_text(out, "\n");
    assert(out@ =~= old(out)@ + gauge_text(g.spec_name(), g.spec_label_entries(), g.spec_value()));
}

fn push_bucket_label(out: &mut String, prefix: &Vec<char>, bound: &str)
    ensures
        final(out)@ == old(out)@ + bucket_label(prefix@, bound@),
{
    if prefix.len() == 0 {
        push_text(out, "{le=\"");
    } else {
        let mut i: usize = 0;
        while i < prefix.len() - 1
            invariant
                prefix@.len() >= 1,
                0 <= i < prefix@.len(),
                out@ == old(out)@ + prefix@.subrange(0, i as int),
            decreases prefix@.len() - i,
        {
            push_char(out, prefix[i]);
            i = i + 1;
            assert(out@ =~= old(out)@ + prefix@.subrange(0, i as int));
        }
        assert(prefix@.subrange(0, i as int) =~= prefix@.drop_last());
        push_text(out, ",le=\"");
    }
    push_text(out, bound);
    push_text(out, "\"}");
    assert(out@ =~= old(out)@ + bucket_label(prefix@, bound@));
}

fn push_bucket_lines(
    out: &mut String,
    name: &str,
    prefix: &Vec<char>,
    bounds: &Vec<String>,
    counts: &Vec<u64>,
)
    requires
        counts@.len() == bounds@.len() + 1,
        prefix_sum(counts@, counts@.len() as int) <= u64::MAX,
    ensures
        final(out)@ == old(out)@ + bucket_lines(
            name@,
            prefix@,
            text_views(bounds@),
            counts@,
            bounds@.len() as int,
        ),
{
    let ghost bv = text_views(bounds@);
    let nb = bounds.len();
    let mut cumulative: u64 = 0;
    let mut i: usize = 0;
    while i < nb
        invariant
            nb == bounds@.len(),
            counts@.len() == nb + 1,
            bv == text_views(bounds@),
            prefix_sum(counts@, counts@.len() as int) <= u64::MAX,
            0 <= i <= nb,
            cumulative == prefix_sum(counts@, i as int),
            out@ == old(out)@ + bucket_lines(name@, prefix@, bv, counts@, i as int),
        decreases nb - i,
    {
        proof {
            crate::metrics::lemma_prefix_sum_mono(counts@, i + 1, counts@.len() as int);
        }
        cumulative = cumulative + counts[i];
        push_text(out, name);
        push_text(out, "_bucket");
        push_bucket_label(out, prefix, bounds[i].as_str());
        push_text(out, " ");
        push_decimal(out, cumulative);
        push_text(out, "\n");
        i = i + 1;
        assert(bv[i - 1] == bounds@[i - 1]@);
        assert(out@ =~= old(out)@ + bucket_lines(name@, prefix@, bv, counts@, i as int));
    }
}

fn push_histogram_tail(
    out: &mut String,
    name: &str,
    prefix_text: &str,
    prefix: &Vec<char>,
    total: u64,
    count: u64,
    sum: &str,
)
    requires
        prefix@ == prefix_text@,
    ensures
        final(out)@ == old(out)@ + histogram_tail(name@, prefix@, total as int, count, sum@),
{
    push_text(out, name);
    push_text(out, "_bucket");
    push_bucket_label(out, prefix, "+Inf");
    push_text(out, " ");
    push_decimal(out, total);
    push_text(out, "\n");
    push_text(out, name);
    push_text(out, "_sum");
    push_text(out, prefix_text);
    push_text(out, " ");
    push_text(out, sum);
    push_text(out, "\n");
    push_text(out, name);
    push_text(out, "_count");
    push_text(out, prefix_text);
    push_text(out, " ");
    push_decimal(out, count);
    push_text(out, "\n");
    assert(out@ =~= old(out)@ + histogram_tail(name@, prefix@, total as int, count, sum@));
}

/// Appends the lines of a histogram, with `sum` the text of its sum.
pub fn write_histogram(out: &mut String, h: &HistogramCounts, sum: &str)
    requires
        h.well_formed(),
        prefix_sum(h.spec_counts(), h.spec_counts().len() as int) <= u64::MAX,
    ensures
        final(out)@ == old(out)@ + histogram_text(
            h.spec_name(),
            h.spec_label_entries(),
            h.spec_bounds(),
            h.spec_counts(),
            h.spec_count(),
            sum@,
        ),
{
    let name = h.name();
    push_header(out, name, "Histogram", "histogram");
    let ghost after_header = out@;
    let prefix_text = format_labels(h.labels());
    let prefix = chars_of(prefix_text.as_str());
    let bounds = h.bound_texts();
    let counts = h.get_bucket_counts();
    let nb = h.bucket_count();
    push_bucket_lines(out, name, &prefix, bounds, &counts);
    let ghost after_buckets = out@;
    proof {
        crate::metrics::lemma_prefix_sum_mono(counts@, nb as int, counts@.len() as int);
    }
    let total = sum_counts(&counts);
    push_histogram_tail(out, name, prefix_text.as_str(), &prefix, total, h.get_count(), sum);
    assert(out@ == after_buckets + histogram_tail(
        name@,
        prefix@,
        prefix_sum(counts@, counts@.len() as int),
        h.spec_count(),
        sum@,
    ));
    assert(out@ =~= old(out)@ + histogram_text(
        h.spec_name(),
        h.spec_label_entries(),
        h.spec_bounds(),
        h.spec_counts(),
        h.spec_count(),
        sum@,
    ));
}

/// Sum of all counts.
fn sum_counts(counts: &Vec<u64>) -> (r: u64)
    requires
        prefix_sum(counts@, counts@.len() as int) <= u64::MAX,
    ensures
        r == prefix_sum(counts@, counts@.len() as int),
{
    let mut total: u64 = 0;
    let mut i: usize = 0;
    while i < counts.len()
        invariant
            0 <= i <= counts@.len(),
            total == prefix_sum(counts@, i as int),
            prefix_sum(counts@, counts@.len() as int) <= u64::MAX,
        decreases counts@.len() - i,
    {
        proof {
            crate::metrics::lemma_prefix_sum_mono(counts@, i + 1, counts@.len() as int);
        }
        total = total + counts[i];
        i = i + 1;
    }
    total
}

impl MetricsRegistry {
    /// Exports all metrics in Prometheus text exposition format: every
    /// counter, then every gauge, then every histogram, each in registration
    /// order and each introduced by its `# HELP` and `# TYPE` lines. The text
    /// of each histogram's sum is given in `sums`, one per histogram in order.
    /// Each histogram's `+Inf` bucket line gives the same number as its count
    /// line.
    pub fn export_prometheus(&self, sums: &Vec<String>) -> (r: String)
        requires
            self.well_formed(),
            sums@.len() == self.spec_histograms().len(),
            forall|i: int|
                0 <= i < self.spec_histograms().len() ==> prefix_sum(
                    #[trigger] self.spec_histograms()[i].spec_counts(),
                    self.spec_histograms()[i].spec_counts().len() as int,
                ) <= u64::MAX,
        ensures
            r@ == counters_text(self.spec_counters()) + gauges_text(self.spec_gauges())
                + histograms_text(self.spec_histograms(), text_views(sums@)),
            forall|i: int|
                0 <= i < self.spec_histograms().len() ==> prefix_sum(
                    #[trigger] self.spec_histograms()[i].spec_counts(),
                    self.spec_histograms()[i].spec_counts().len() as int,
                ) == self.spec_histograms()[i].spec_count(),
    {
        proof {
            assert forall|i: int| 0 <= i < self.spec_histograms().len() implies prefix_sum(
                #[trigger] self.spec_histograms()[i].spec_counts(),
                self.spec_histograms()[i].spec_counts().len() as int,
            ) == self.spec_histograms()[i].spec_count() by {
                let h = self.spec_histograms()[i];
                h.lemma_count_is_total();
                crate::metrics::lemma_prefix_sum_nonneg(h.spec_counts(), h.spec_counts().len() as int);
                vstd::arithmetic::div_mod::lemma_small_mod(
                    prefix_sum(h.spec_counts(), h.spec_counts().len() as int) as nat,
                    0x1_0000_0000_0000_0000,
                );
            }
        }
        let mut out = String::new();
        let counters = self.counters();
        let mut i: usize = 0;
        assert(counters@.subrange(0, 0) =~= Seq::<Counter>::empty());
        while i < counters.len()
            invariant
                0 <= i <= counters@.len(),
                out@ == counters_text(counters@.subrange(0, i as int)),
            decreases counters@.len() - i,
        {
            write_counter(&mut out, &counters[i]);
            assert(counters@.subrange(0, i + 1).drop_last() =~= counters@.subrange(0, i as int));
            i = i + 1;
        }
        assert(counters@.subrange(0, counters@.len() as int) =~= counters@);
        let ghost after_counters = out@;
        let gauges = self.gauges();
        let mut j: usize = 0;
        assert(gauges@.subrange(0, 0) =~= Seq::<Gauge>::empty());
        while j < gauges.len()
            invariant
                0 <= j <= gauges@.len(),
                out@ == after_counters + gauges_text(gauges@.subrange(0, j as int)),
            decreases gauges@.len() - j,
        {
            write_gauge(&mut out, &gauges[j]);
            assert(gauges@.subrange(0, j + 1).drop_last() =~= gauges@.subrange(0, j as int));
            j = j + 1;
            assert(out@ =~= after_counters + gauges_text(gauges@.subrange(0, j as int)));
        }
        assert(gauges@.subrange(0, gauges@.len() as int) =~= gauges@);
        let ghost after_gauges = out@;
        let histograms = self.histograms();
        let ghost sv = text_views(sums@);
        let mut k: usize = 0;
        assert(histograms@.subrange(0, 0) =~= Seq::<HistogramCounts>::empty());
        while k < histograms.len()
            invariant
                0 <= k <= histograms@.len(),
                histograms@ == self.spec_histograms(),
                self.well_formed(),
                sums@.len() == histograms@.len(),
                sv == text_views(sums@),
                forall|i: int|
                    0 <= i < self.spec_histograms().len() ==> prefix_sum(
                        #[trigger] self.spec_histograms()[i].spec_counts(),
                        self.spec_histograms()[i].spec_counts().len() as int,
                    ) <= u64::MAX,
                out@ == after_gauges + histograms_text(histograms@.subrange(0, k as int), sv),
            decreases histograms@.len() - k,
        {
            assert(self.spec_histograms()[k as int].well_formed());
            write_histogram(&mut out, &histograms[k], sums[k].as_str());
            assert(histograms@.subrange(0, k + 1).drop_last() =~= histograms@.subrange(0, k as int));
            k = k + 1;
            assert(out@ =~= after_gauges + histograms_text(histograms@.subrange(0, k as int), sv));
        }
        assert(histograms@.subrange(0, histograms@.len() as int) =~= histograms@);
        out
    }
}

} // verus!
