//! Metric formatter: renders metric records into the Prometheus text
//! exposition format.

use vstd::prelude::*;
use vstd::string::StringExecFns;

verus! {

/// One `key="value"` attribute item.
pub open spec fn spec_label_item(p: (Seq<char>, Seq<char>)) -> Seq<char> {
    p.0 + "=\""@ + p.1 + "\""@
}

/// The first `i` attribute items joined by commas.
pub open spec fn spec_labels_prefix(pairs: Seq<(Seq<char>, Seq<char>)>, i: int) -> Seq<char>
    decreases i,
{
    if i <= 0 {
        Seq::empty()
    } else if i == 1 {
        spec_label_item(pairs[0])
    } else {
        spec_labels_prefix(pairs, i - 1) + ","@ + spec_label_item(pairs[i - 1])
    }
}

/// One rendered metric line: `name{k="v",k2="v2"} value\n`, the brace
/// block omitted entirely when the attribute mapping is empty.  Attribute
/// order follows the given mapping's order; callers must make it
/// deterministic when output stability matters.
pub open spec fn spec_format_metric(
    key: Seq<char>,
    value: Seq<char>,
    pairs: Seq<(Seq<char>, Seq<char>)>,
) -> Seq<char> {
    if pairs.len() == 0 {
        key + " "@ + value + "\n"@
    } else {
        key + "{"@ + spec_labels_prefix(pairs, pairs.len() as int) + "}"@ + " "@ + value + "\n"@
    }
}

/// The character sequences of an attribute list.
pub open spec fn pairs_of(labels: Seq<(String, String)>) -> Seq<(Seq<char>, Seq<char>)> {
    labels.map_values(|p: (String, String)| (p.0@, p.1@))
}

/// Returns a well formatted Prometheus metric line.
pub fn format_metric(key: &str, value: &str, labels: &Vec<(String, String)>) -> (r: String)
    ensures
        r@ == spec_format_metric(key@, value@, pairs_of(labels@)),
{
    let ghost pairs = pairs_of(labels@);
    let mut result = key.to_owned();
    let n = labels.len();
    if n > 0 {
        result.append("{");
        let mut i: usize = 0;
        while i < n
            invariant
                0 <= i <= n,
                n == labels@.len(),
                n > 0,
                pairs == pairs_of(labels@),
                result@ == key@ + "{"@ + spec_labels_prefix(pairs, i as int),
            decreases n - i,
        {
            proof {
                assert(pairs[i as int] == (labels@[i as int].0@, labels@[i as int].1@));
            }
            if i > 0 {
                result.append(",");
            }
            result.append(labels[i].0.as_str());
            result.append("=\"");
            result.append(labels[i].1.as_str());
            result.append("\"");
            proof {
                if i == 0 {
                    assert(result@ =~= key@ + "{"@ + spec_labels_prefix(pairs, 1));
                } else {
                    assert(result@ =~= key@ + "{"@ + spec_labels_prefix(pairs, i as int + 1));
                }
            }
            i = i + 1;
        }
        result.append("}");
    }
    result.append(" ");
    result.append(value);
    result.append("\n");
    proof {
        assert(result@ =~= spec_format_metric(key@, value@, pairs));
    }
    result
}

/// The lines one metric contributes to a response body: a HELP line, a
/// TYPE line, then the rendered metric line(s).  Nothing is deduplicated:
/// a second call for the same metric name repeats the HELP and TYPE
/// lines, so a caller batches all series of one name under a single call.
pub open spec fn spec_push_metric(
    body: Seq<char>,
    help: Seq<char>,
    metric_type: Seq<char>,
    metric_name: Seq<char>,
    metric_line: Seq<char>,
) -> Seq<char> {
    body + "# HELP "@ + metric_name + " "@ + help + "\n# TYPE "@ + metric_name + " "@
        + metric_type + "\n"@ + metric_line
}

/// Adds the lines related to one metric to the body of a response.
pub fn push_metric(
    body: String,
    help: String,
    metric_type: String,
    metric_name: String,
    metric_line: String,
) -> (r: String)
    ensures
        r@ == spec_push_metric(body@, help@, metric_type@, metric_name@, metric_line@),
{
    let mut r = body;
    r.append("# HELP ");
    r.append(metric_name.as_str());
    r.append(" ");
    r.append(help.as_str());
    r.append("\n# TYPE ");
    r.append(metric_name.as_str());
    r.append(" ");
    r.append(metric_type.as_str());
    r.append("\n");
    r.append(metric_line.as_str());
    proof {
        assert(r@ =~= spec_push_metric(body@, help@, metric_type@, metric_name@, metric_line@));
    }
    r
}

/// One metric record of the HTTP path: name, help text, kind, value and
/// attribute mapping (unique keys, values as text).
pub struct Metric {
    pub name: String,
    pub help: String,
    pub metric_type: String,
    pub value: String,
    pub attributes: Vec<(String, String)>,
}

/// The character-level content of one metric record.
pub ghost struct MetricView {
    pub name: Seq<char>,
    pub help: Seq<char>,
    pub metric_type: Seq<char>,
    pub value: Seq<char>,
    pub attributes: Seq<(Seq<char>, Seq<char>)>,
}

impl View for Metric {
    type V = MetricView;

    open spec fn view(&self) -> MetricView {
        MetricView {
            name: self.name@,
            help: self.help@,
            metric_type: self.metric_type@,
            value: self.value@,
            attributes: pairs_of(self.attributes@),
        }
    }
}

/// The body the first `i` metric records render to.
pub open spec fn spec_render_prefix(ms: Seq<MetricView>, i: int) -> Seq<char>
    decreases i,
{
    if i <= 0 {
        Seq::empty()
    } else {
        spec_push_metric(
            spec_render_prefix(ms, i - 1),
            ms[i - 1].help,
            ms[i - 1].metric_type,
            ms[i - 1].name,
            spec_format_metric(ms[i - 1].name, ms[i - 1].value, ms[i - 1].attributes),
        )
    }
}

/// Renders a whole metric batch into one response body, in order.
pub fn render_metrics(metrics: &Vec<Metric>) -> (r: String)
    ensures
        r@ == spec_render_prefix(metrics@.map_values(|m: Metric| m@), metrics@.len() as int),
{
    let ghost ms = metrics@.map_values(|m: Metric| m@);
    let mut body = String::new();
    let n = metrics.len();
    let mut i: usize = 0;
    while i < n
        invariant
            0 <= i <= n,
            n == metrics@.len(),
            ms == metrics@.map_values(|m: Metric| m@),
            body@ == spec_render_prefix(ms, i as int),
        decreases n - i,
    {
        proof {
            assert(ms[i as int] == metrics@[i as int]@);
        }
        let m = &metrics[i];
        let line = format_metric(m.name.as_str(), m.value.as_str(), &m.attributes);
        body = push_metric(
            body,
            m.help.clone(),
            m.metric_type.clone(),
            m.name.clone(),
            line,
        );
        i = i + 1;
    }
    body
}

} // verus!
