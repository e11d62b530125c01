//! The records of an audit: metadata, recommendations, rows and write requests.

use vstd::prelude::*;

use crate::ieee::Real32;
use crate::param::{MavParamType, ParamEncoding};
use crate::text::{copy_opt, opt_text};

verus! {

/// A named value of an enumeration, or a named bit of a bit mask.
#[derive(Debug)]
pub struct ParamChoice {
    /// The value, or the number of the bit.
    pub value: i64,
    /// Its name.
    pub label: String,
}

/// The view of a choice.
pub struct ChoiceView {
    /// The value, or the number of the bit.
    pub value: i64,
    /// Its name.
    pub label: Seq<char>,
}

impl View for ParamChoice {
    type V = ChoiceView;

    open spec fn view(&self) -> ChoiceView {
        ChoiceView { value: self.value, label: self.label@ }
    }
}

impl Clone for ParamChoice {
    fn clone(&self) -> (r: ParamChoice)
        ensures
            r@ == self@,
    {
        ParamChoice { value: self.value, label: self.label.clone() }
    }
}

/// The views of choices.
pub open spec fn choices(v: Seq<ParamChoice>) -> Seq<ChoiceView> {
    Seq::new(v.len(), |i: int| v[i]@)
}

/// Copies of choices.
pub fn copy_choices(v: &Vec<ParamChoice>) -> (r: Vec<ParamChoice>)
    ensures
        choices(r@) == choices(v@),
{
    let mut out: Vec<ParamChoice> = Vec::new();
    for i in 0..v.len()
        invariant
            choices(out@) == choices(v@).take(i as int),
    {
        let ghost before = out@;
        out.push(v[i].clone());
        assert(choices(out@) =~= choices(before).push(v@[i as int]@));
        assert(choices(v@).take(i + 1) =~= choices(v@).take(i as int).push(v@[i as int]@));
    }
    assert(choices(v@).take(v@.len() as int) =~= choices(v@));
    out
}

/// What PX4 documents of a parameter.
#[derive(Debug)]
pub struct ParamMetadata {
    /// The type.
    pub param_type: Option<String>,
    /// The short description.
    pub short_description: Option<String>,
    /// The unit.
    pub unit: Option<String>,
    /// The smallest value.
    pub min: Option<String>,
    /// The largest value.
    pub max: Option<String>,
    /// The number of decimals.
    pub decimal: Option<String>,
    /// Whether a change takes effect after a reboot only.
    pub reboot_required: bool,
    /// The named values.
    pub values: Vec<ParamChoice>,
    /// The named bits.
    pub bits: Vec<ParamChoice>,
}

/// The view of metadata.
pub struct MetadataView {
    /// The type.
    pub param_type: Option<Seq<char>>,
    /// The short description.
    pub short_description: Option<Seq<char>>,
    /// The unit.
    pub unit: Option<Seq<char>>,
    /// The smallest value.
    pub min: Option<Seq<char>>,
    /// The largest value.
    pub max: Option<Seq<char>>,
    /// The number of decimals.
    pub decimal: Option<Seq<char>>,
    /// Whether a change takes effect after a reboot only.
    pub reboot_required: bool,
    /// The named values.
    pub values: Seq<ChoiceView>,
    /// The named bits.
    pub bits: Seq<ChoiceView>,
}

impl View for ParamMetadata {
    type V = MetadataView;

    open spec fn view(&self) -> MetadataView {
        MetadataView {
            param_type: opt_text(self.param_type),
            short_description: opt_text(self.short_description),
            unit: opt_text(self.unit),
            min: opt_text(self.min),
            max: opt_text(self.max),
            decimal: opt_text(self.decimal),
            reboot_required: self.reboot_required,
            values: choices(self.values@),
            bits: choices(self.bits@),
        }
    }
}

/// Metadata that says nothing.
pub open spec fn no_metadata() -> MetadataView {
    MetadataView {
        param_type: None,
        short_description: None,
        unit: None,
        min: None,
        max: None,
        decimal: None,
        reboot_required: false,
        values: Seq::empty(),
        bits: Seq::empty(),
    }
}

impl Default for ParamMetadata {
    fn default() -> (r: ParamMetadata)
        ensures
            r@ == no_metadata(),
    {
        let r = ParamMetadata {
            param_type: None,
            short_description: None,
            unit: None,
            min: None,
            max: None,
            decimal: None,
            reboot_required: false,
            values: Vec::new(),
            bits: Vec::new(),
        };
        assert(choices(r.values@) =~= Seq::empty());
        assert(choices(r.bits@) =~= Seq::empty());
        r
    }
}

impl Clone for ParamMetadata {
    fn clone(&self) -> (r: ParamMetadata)
        ensures
            r@ == self@,
    {
        ParamMetadata {
            param_type: copy_opt(&self.param_type),
            short_description: copy_opt(&self.short_description),
            unit: copy_opt(&self.unit),
            min: copy_opt(&self.min),
            max: copy_opt(&self.max),
            decimal: copy_opt(&self.decimal),
            reboot_required: self.reboot_required,
            values: copy_choices(&self.values),
            bits: copy_choices(&self.bits),
        }
    }
}

/// The view of optional metadata.
pub open spec fn opt_metadata(m: Option<ParamMetadata>) -> Option<MetadataView> {
    match m {
        Some(x) => Some(x@),
        None => None,
    }
}

/// The view of optional metadata behind a reference.
pub open spec fn opt_metadata_ref(m: Option<&ParamMetadata>) -> Option<MetadataView> {
    match m {
        Some(x) => Some(x@),
        None => None,
    }
}

/// A baseline value and where it comes from.
#[derive(Debug)]
pub struct Recommendation {
    /// The value.
    pub value: String,
    /// Where it comes from.
    pub source: String,
    /// Whether it is a firmware default that stands in for an airframe default.
    pub fallback: bool,
}

/// The view of a recommendation.
pub struct RecommendationView {
    /// The value.
    pub value: Seq<char>,
    /// Where it comes from.
    pub source: Seq<char>,
    /// Whether it is a firmware default that stands in for an airframe default.
    pub fallback: bool,
}

impl View for Recommendation {
    type V = RecommendationView;

    open spec fn view(&self) -> RecommendationView {
        RecommendationView {
            value: self.value@,
            source: self.source@,
            fallback: self.fallback,
        }
    }
}

/// A parameter of the device beside its baseline.
#[derive(Debug)]
pub struct AuditRow {
    /// The name of the parameter.
    pub name: String,
    /// The value of the device.
    pub current: String,
    /// The value of the baseline.
    pub baseline: String,
    /// Where the baseline comes from.
    pub source: String,
    /// How the two compare.
    pub status: String,
    /// Whether the baseline is a fallback.
    pub baseline_fallback: bool,
    /// The type under which the parameter is shown and written.
    pub mav_type: MavParamType,
    /// What PX4 documents of the parameter.
    pub metadata: Option<ParamMetadata>,
}

/// The view of a row.
pub struct RowView {
    /// The name of the parameter.
    pub name: Seq<char>,
    /// The value of the device.
    pub current: Seq<char>,
    /// The value of the baseline.
    pub baseline: Seq<char>,
    /// Where the baseline comes from.
    pub source: Seq<char>,
    /// How the two compare.
    pub status: Seq<char>,
    /// Whether the baseline is a fallback.
    pub baseline_fallback: bool,
    /// The type under which the parameter is shown and written.
    pub mav_type: MavParamType,
    /// What PX4 documents of the parameter.
    pub metadata: Option<MetadataView>,
}

impl View for AuditRow {
    type V = RowView;

    open spec fn view(&self) -> RowView {
        RowView {
            name: self.name@,
            current: self.current@,
            baseline: self.baseline@,
            source: self.source@,
            status: self.status@,
            baseline_fallback: self.baseline_fallback,
            mav_type: self.mav_type,
            metadata: opt_metadata(self.metadata),
        }
    }
}

/// The views of rows.
pub open spec fn rows_view(v: Seq<AuditRow>) -> Seq<RowView> {
    Seq::new(v.len(), |i: int| v[i]@)
}

/// A value to be written to the device.
#[derive(Debug)]
pub struct WriteRequest {
    /// The name of the parameter.
    pub name: String,
    /// The number to write.
    pub value: Real32,
    /// The type of the parameter.
    pub mav_type: MavParamType,
    /// The encoding of integers.
    pub encoding: ParamEncoding,
    /// What the request comes from.
    pub source: String,
}

/// The view of a write request.
pub struct WriteView {
    /// The name of the parameter.
    pub name: Seq<char>,
    /// The number to write.
    pub value: Real32,
    /// The type of the parameter.
    pub mav_type: MavParamType,
    /// The encoding of integers.
    pub encoding: ParamEncoding,
    /// What the request comes from.
    pub source: Seq<char>,
}

impl View for WriteRequest {
    type V = WriteView;

    open spec fn view(&self) -> WriteView {
        WriteView {
            name: self.name@,
            value: self.value,
            mav_type: self.mav_type,
            encoding: self.encoding,
            source: self.source@,
        }
    }
}

impl Clone for WriteRequest {
    fn clone(&self) -> (r: WriteRequest)
        ensures
            r@ == self@,
    {
        WriteRequest {
            name: self.name.clone(),
            value: self.value,
            mav_type: self.mav_type,
            encoding: self.encoding,
            source: self.source.clone(),
        }
    }
}

/// The views of write requests.
pub open spec fn writes_view(v: Seq<WriteRequest>) -> Seq<WriteView> {
    Seq::new(v.len(), |i: int| v[i]@)
}

/// Copies of write requests.
pub fn copy_writes(v: &Vec<WriteRequest>) -> (r: Vec<WriteRequest>)
    ensures
        writes_view(r@) == writes_view(v@),
{
    let mut out: Vec<WriteRequest> = Vec::new();
    for i in 0..v.len()
        invariant
            writes_view(out@) == writes_view(v@).take(i as int),
    {
        let ghost before = out@;
        out.push(v[i].clone());
        assert(writes_view(out@) =~= writes_view(before).push(v@[i as int]@));
        assert(writes_view(v@).take(i + 1) =~= writes_view(v@).take(i as int).push(v@[i as int]@));
    }
    assert(writes_view(v@).take(v@.len() as int) =~= writes_view(v@));
    out
}

/// `t` with `c` behind the last choice that is not larger.
pub open spec fn insert_choice(t: Seq<ChoiceView>, c: ChoiceView) -> Seq<ChoiceView>
    decreases t.len(),
{
    if t.len() > 0 && t.last().value > c.value {
        insert_choice(t.drop_last(), c).push(t.last())
    } else {
        t.push(c)
    }
}

/// The choices by their values; equal ones keep their order.
pub open spec fn sorted_choices(s: Seq<ChoiceView>) -> Seq<ChoiceView>
    decreases s.len(),
{
    if s.len() == 0 {
        s
    } else {
        insert_choice(sorted_choices(s.drop_last()), s.last())
    }
}

/// The choices with the given value, in their order.
pub open spec fn with_value(s: Seq<ChoiceView>, v: i64) -> Seq<ChoiceView>
    decreases s.len(),
{
    if s.len() == 0 {
        s
    } else if s.last().value == v {
        with_value(s.drop_last(), v).push(s.last())
    } else {
        with_value(s.drop_last(), v)
    }
}

proof fn lemma_insert_choice(t: Seq<ChoiceView>, c: ChoiceView, v: i64)
    requires
        forall|i: int, j: int| 0 <= i < j < t.len() ==> t[i].value <= t[j].value,
    ensures
        forall|i: int, j: int|
            0 <= i < j < insert_choice(t, c).len() ==> (#[trigger] insert_choice(t, c)[i]).value <= (
            #[trigger] insert_choice(t, c)[j]).value,
        with_value(insert_choice(t, c), v) == (if c.value == v {
            with_value(t, v).push(c)
        } else {
            with_value(t, v)
        }),
        insert_choice(t, c).len() == t.len() + 1,
        forall|i: int|
            0 <= i < insert_choice(t, c).len() ==> #[trigger] insert_choice(t, c)[i] == c
                || t.contains(insert_choice(t, c)[i]),
    decreases t.len(),
{
    let out = insert_choice(t, c);
    if t.len() > 0 && t.last().value > c.value {
        let head = t.drop_last();
        lemma_insert_choice(head, c, v);
        let mid = insert_choice(head, c);
        assert(out.drop_last() =~= mid);
        assert forall|i: int| 0 <= i < out.len() implies #[trigger] out[i] == c || t.contains(
            out[i],
        ) by {
            if i < mid.len() {
                assert(out[i] == mid[i]);
                if mid[i] != c {
                    let k = choose|k: int| 0 <= k < head.len() && head[k] == mid[i];
                    assert(t[k] == mid[i]);
                }
            } else {
                assert(out[i] == t[t.len() - 1]);
            }
        }
        assert forall|i: int, j: int| 0 <= i < j < out.len() implies (#[trigger] out[i]).value <= (
        #[trigger] out[j]).value by {
            if j < mid.len() {
                assert(out[i] == mid[i] && out[j] == mid[j]);
            } else {
                assert(out[i] == mid[i]);
                if mid[i] != c {
                    let k = choose|k: int| 0 <= k < head.len() && head[k] == mid[i];
                    assert(t[k] == mid[i]);
                }
            }
        }
        if c.value == v {
            assert(with_value(t, v) == with_value(head, v));
        }
    } else {
        assert(out.drop_last() =~= t);
        assert forall|i: int| 0 <= i < out.len() implies #[trigger] out[i] == c || t.contains(
            out[i],
        ) by {
            if i < t.len() {
                assert(out[i] == t[i]);
            }
        }
        assert forall|i: int, j: int| 0 <= i < j < out.len() implies (#[trigger] out[i]).value <= (
        #[trigger] out[j]).value by {
            if j < t.len() {
                assert(out[i] == t[i] && out[j] == t[j]);
            } else {
                assert(out[i] == t[i]);
                assert(t[i].value <= t[t.len() - 1].value);
            }
        }
    }
}

/// Sorting puts choices in the order of their values, and keeps all those of one value in their
/// order.
pub proof fn law_sorted_choices(s: Seq<ChoiceView>, v: i64)
    ensures
        forall|i: int, j: int|
            0 <= i < j < sorted_choices(s).len() ==> (#[trigger] sorted_choices(s)[i]).value <= (
            #[trigger] sorted_choices(s)[j]).value,
        with_value(sorted_choices(s), v) == with_value(s, v),
        sorted_choices(s).len() == s.len(),
    decreases s.len(),
{
    if s.len() > 0 {
        law_sorted_choices(s.drop_last(), v);
        lemma_insert_choice(sorted_choices(s.drop_last()), s.last(), v);
    }
}

proof fn lemma_insert_at(t: Seq<ChoiceView>, c: ChoiceView, at: int)
    requires
        0 <= at <= t.len(),
        forall|i: int| at <= i < t.len() ==> (#[trigger] t[i]).value > c.value,
        at > 0 ==> t[at - 1].value <= c.value,
    ensures
        insert_choice(t, c) == t.insert(at, c),
    decreases t.len(),
{
    if at < t.len() {
        lemma_insert_at(t.drop_last(), c, at);
        assert(t.drop_last().insert(at, c).push(t.last()) =~= t.insert(at, c));
    } else {
        assert(t.insert(at, c) =~= t.push(c));
    }
}

/// Sorts choices by their values; equal ones keep their order.
pub fn sort_choices(v: &Vec<ParamChoice>) -> (r: Vec<ParamChoice>)
    ensures
        choices(r@) == sorted_choices(choices(v@)),
{
    let mut out: Vec<ParamChoice> = Vec::new();
    assert(choices(out@) =~= sorted_choices(choices(v@).take(0)));
    for i in 0..v.len()
        invariant
            choices(out@) == sorted_choices(choices(v@).take(i as int)),
    {
        let c = v[i].clone();
        let mut at: usize = out.len();
        while at > 0 && out[at - 1].value > c.value
            invariant
                at <= out@.len(),
                forall|k: int| at <= k < out@.len() ==> (#[trigger] choices(out@)[k]).value
                    > c.value,
            decreases at,
        {
            at = at - 1;
        }
        let ghost before = choices(out@);
        let ghost item = c@;
        proof {
            if at > 0 {
                assert(before[at - 1] == out@[at - 1]@);
            }
            lemma_insert_at(before, item, at as int);
        }
        out.insert(at, c);
        proof {
            assert(choices(out@) =~= before.insert(at as int, item));
            assert(choices(v@).take(i + 1).drop_last() =~= choices(v@).take(i as int));
            assert(choices(v@).take(i + 1).last() == v@[i as int]@);
        }
    }
    assert(choices(v@).take(v@.len() as int) =~= choices(v@));
    out
}

} // verus!
