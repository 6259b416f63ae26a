//! The value model: a tagged variant for context values and condition literals.

use vstd::prelude::*;

verus! {

broadcast use
    vstd::seq::axiom_seq_index_decreases,
    vstd::std_specs::vec::axiom_vec_index_decreases,
    vstd::std_specs::vec::axiom_vec_decreases_to_view,
;

/// A value that can be used in conditions and contexts.
///
/// Fractional numbers are held in fixed point as a signed count of millionths
/// (`Float(1_500_000)` stands for one and a half), so that every comparison the
/// engine makes is exact integer arithmetic.
#[derive(Debug)]
pub enum ConditionValue {
    /// String value
    String(String),
    /// Integer value
    Integer(i64),
    /// Fractional value, in millionths
    Float(i64),
    /// Boolean value
    Boolean(bool),
    /// Array of values
    Array(Vec<ConditionValue>),
    /// Null value
    Null,
}

/// The mathematical shape of a [`ConditionValue`].
#[verifier::ext_equal]
pub enum ValueView {
    /// String value
    Str(Seq<char>),
    /// Integer value
    Int(int),
    /// Fractional value, in millionths
    Flt(int),
    /// Boolean value
    Bool(bool),
    /// Array of values
    Arr(Seq<ValueView>),
    /// Null value
    Null,
}

/// The views of a sequence of values, elementwise.
pub open spec fn value_views(s: Seq<ConditionValue>) -> Seq<ValueView>
    decreases s,
{
    if s.len() == 0 {
        Seq::empty()
    } else {
        proof {
            assert(decreases_to!(s => s[0]));
            assert(decreases_to!(s => s.subrange(1, s.len() as int)));
        }
        seq![s[0].deep_view()] + value_views(s.subrange(1, s.len() as int))
    }
}

impl DeepView for ConditionValue {
    type V = ValueView;

    open spec fn deep_view(&self) -> ValueView
        decreases self,
    {
        match self {
            ConditionValue::String(s) => ValueView::Str(s@),
            ConditionValue::Integer(n) => ValueView::Int(*n as int),
            ConditionValue::Float(m) => ValueView::Flt(*m as int),
            ConditionValue::Boolean(b) => ValueView::Bool(*b),
            ConditionValue::Array(items) => {
                proof {
                    assert(decreases_to!(*items => items@));
                }
                ValueView::Arr(value_views(items@))
            },
            ConditionValue::Null => ValueView::Null,
        }
    }
}

impl View for ConditionValue {
    type V = ValueView;

    open spec fn view(&self) -> ValueView {
        self.deep_view()
    }
}

/// `value_views` maps the view pointwise over the sequence.
pub broadcast proof fn lemma_value_views(s: Seq<ConditionValue>)
    ensures
        #[trigger] value_views(s).len() == s.len(),
        forall|i: int| 0 <= i < s.len() ==> value_views(s)[i] == s[i].deep_view(),
    decreases s.len(),
{
    if s.len() > 0 {
        let rest = s.subrange(1, s.len() as int);
        lemma_value_views(rest);
        let first = seq![s[0].deep_view()];
        assert(value_views(s) == first + value_views(rest));
        assert forall|i: int| 0 <= i < s.len() implies value_views(s)[i] == s[i].deep_view() by {
            if i > 0 {
                assert((first + value_views(rest))[i] == value_views(rest)[i - 1]);
                assert(rest[i - 1] == s[i]);
            }
        }
    }
}

/// The number of millionths in one whole unit of a fixed-point value.
pub const MICRO: i64 = 1_000_000;

/// A numeric value as a count of millionths: integers are scaled up, fixed-point
/// values are taken as they are, and anything else has no numeric reading.
pub open spec fn spec_as_micro(v: ValueView) -> Option<int> {
    match v {
        ValueView::Int(n) => Some(n * MICRO as int),
        ValueView::Flt(m) => Some(m),
        _ => None,
    }
}

/// Structural equality between a context value `a` and a condition literal `e`.
///
/// An integer literal matches only a context value that holds the same whole
/// number; a fixed-point literal matches any context number of equal magnitude.
/// Arrays compare element-wise with identical length.
pub open spec fn spec_values_equal(a: ValueView, e: ValueView) -> bool
    decreases a,
{
    match (a, e) {
        (ValueView::Str(x), ValueView::Str(y)) => x == y,
        (ValueView::Int(x), ValueView::Int(y)) => x == y,
        (ValueView::Int(x), ValueView::Flt(y)) => x * MICRO as int == y,
        (ValueView::Flt(x), ValueView::Flt(y)) => x == y,
        (ValueView::Bool(x), ValueView::Bool(y)) => x == y,
        (ValueView::Null, ValueView::Null) => true,
        (ValueView::Arr(xs), ValueView::Arr(ys)) => spec_arrays_equal(xs, ys),
        _ => false,
    }
}

/// Element-wise structural equality of two value sequences of equal length.
pub open spec fn spec_arrays_equal(xs: Seq<ValueView>, ys: Seq<ValueView>) -> bool
    decreases xs,
{
    if xs.len() != ys.len() {
        false
    } else if xs.len() == 0 {
        true
    } else {
        proof {
            assert(decreases_to!(xs => xs[0]));
            assert(decreases_to!(xs => xs.subrange(1, xs.len() as int)));
        }
        spec_values_equal(xs[0], ys[0]) && spec_arrays_equal(
            xs.subrange(1, xs.len() as int),
            ys.subrange(1, ys.len() as int),
        )
    }
}

impl ConditionValue {
    /// The numeric reading of this value in millionths, if it has one.
    pub fn as_micro(&self) -> (r: Option<i128>)
        ensures
            match spec_as_micro(self@) {
                Some(m) => r == Some(m as i128) && r->0 == m,
                None => r is None,
            },
    {
        match self {
            ConditionValue::Integer(n) => Some((*n as i128) * (MICRO as i128)),
            ConditionValue::Float(m) => Some(*m as i128),
            _ => None,
        }
    }
}

/// Check whether the context value `a` structurally equals the literal `e`.
pub fn values_equal(a: &ConditionValue, e: &ConditionValue) -> (r: bool)
    ensures
        r == spec_values_equal(a@, e@),
    decreases a,
{
    match (a, e) {
        (ConditionValue::String(x), ConditionValue::String(y)) => *x == *y,
        (ConditionValue::Integer(x), ConditionValue::Integer(y)) => *x == *y,
        (ConditionValue::Integer(x), ConditionValue::Float(y)) => {
            (*x as i128) * (MICRO as i128) == *y as i128
        },
        (ConditionValue::Float(x), ConditionValue::Float(y)) => *x == *y,
        (ConditionValue::Boolean(x), ConditionValue::Boolean(y)) => *x == *y,
        (ConditionValue::Null, ConditionValue::Null) => true,
        (ConditionValue::Array(xs), ConditionValue::Array(ys)) => {
            if xs.len() != ys.len() {
                proof {
                    lemma_value_views(xs@);
                    lemma_value_views(ys@);
                }
                false
            } else {
                let mut i: usize = 0;
                let mut all: bool = true;
                while i < xs.len()
                    invariant
                        i <= xs.len(),
                        all == spec_arrays_equal(
                            value_views(xs@).subrange(0, i as int),
                            value_views(ys@).subrange(0, i as int),
                        ),
                    decreases xs@.len() - i,
                {
                    proof {
                        assert(decreases_to!(*xs => xs@));
                        assert(decreases_to!(xs@ => xs@[i as int]));
                        lemma_value_views(xs@);
                        lemma_value_views(ys@);
                    }
                    let here = values_equal(&xs[i], &ys[i]);
                    proof {
                        lemma_arrays_equal_snoc(
                            value_views(xs@).subrange(0, i as int),
                            value_views(ys@).subrange(0, i as int),
                            value_views(xs@)[i as int],
                            value_views(ys@)[i as int],
                        );
                        assert(value_views(xs@).subrange(0, i + 1 as int) =~= value_views(
                            xs@,
                        ).subrange(0, i as int).push(value_views(xs@)[i as int]));
                        assert(value_views(ys@).subrange(0, i + 1 as int) =~= value_views(
                            ys@,
                        ).subrange(0, i as int).push(value_views(ys@)[i as int]));
                    }
                    all = all && here;
                    i = i + 1;
                }
                proof {
                    lemma_value_views(xs@);
                    lemma_value_views(ys@);
                    assert(value_views(xs@).subrange(0, xs@.len() as int) =~= value_views(xs@));
                    assert(value_views(ys@).subrange(0, ys@.len() as int) =~= value_views(ys@));
                }
                all
            }
        },
        _ => {
            proof {
                lemma_values_equal_shape(a@, e@);
            }
            false
        },
    }
}

/// Appending one element to each of two equal-length sequences conjoins one
/// more element-wise comparison.
proof fn lemma_arrays_equal_snoc(xs: Seq<ValueView>, ys: Seq<ValueView>, x: ValueView, y: ValueView)
    requires
        xs.len() == ys.len(),
    ensures
        spec_arrays_equal(xs.push(x), ys.push(y)) == (spec_arrays_equal(xs, ys)
            && spec_values_equal(x, y)),
    decreases xs.len(),
{
    if xs.len() == 0 {
        assert(xs.push(x).subrange(1, 1) =~= Seq::<ValueView>::empty());
        assert(ys.push(y).subrange(1, 1) =~= Seq::<ValueView>::empty());
        assert(spec_arrays_equal(Seq::empty(), Seq::empty()));
    } else {
        assert(xs.push(x).subrange(1, xs.len() as int + 1) =~= xs.subrange(1, xs.len() as int).push(x));
        assert(ys.push(y).subrange(1, ys.len() as int + 1) =~= ys.subrange(1, ys.len() as int).push(y));
        lemma_arrays_equal_snoc(
            xs.subrange(1, xs.len() as int),
            ys.subrange(1, ys.len() as int),
            x,
            y,
        );
    }
}

/// Values of mismatched shapes are never structurally equal, except for the
/// integer-against-fixed-point pairing.
proof fn lemma_values_equal_shape(a: ValueView, e: ValueView)
    ensures
        spec_values_equal(a, e) ==> match (a, e) {
            (ValueView::Str(_), ValueView::Str(_)) => true,
            (ValueView::Int(_), ValueView::Int(_)) => true,
            (ValueView::Int(_), ValueView::Flt(_)) => true,
            (ValueView::Flt(_), ValueView::Flt(_)) => true,
            (ValueView::Bool(_), ValueView::Bool(_)) => true,
            (ValueView::Null, ValueView::Null) => true,
            (ValueView::Arr(_), ValueView::Arr(_)) => true,
            _ => false,
        },
{
}

impl Clone for ConditionValue {
    /// A clone has the same mathematical value.
    fn clone(&self) -> (r: Self)
        ensures
            r@ == self@,
        decreases self,
    {
        match self {
            ConditionValue::String(s) => ConditionValue::String(s.clone()),
            ConditionValue::Integer(n) => ConditionValue::Integer(*n),
            ConditionValue::Float(m) => ConditionValue::Float(*m),
            ConditionValue::Boolean(b) => ConditionValue::Boolean(*b),
            ConditionValue::Array(items) => {
                let mut out: Vec<ConditionValue> = Vec::new();
                let mut i: usize = 0;
                while i < items.len()
                    invariant
                        i <= items.len(),
                        out@.len() == i as int,
                        forall|j: int|
                            0 <= j < i as int ==> out@[j].deep_view() == items@[j].deep_view(),
                    decreases items@.len() - i,
                {
                    proof {
                        assert(decreases_to!(*items => items@));
                        assert(decreases_to!(items@ => items@[i as int]));
                    }
                    let c = items[i].clone();
                    out.push(c);
                    i = i + 1;
                }
                let r = ConditionValue::Array(out);
                proof {
                    lemma_value_views(out@);
                    lemma_value_views(items@);
                    assert(value_views(out@) =~= value_views(items@));
                }
                r
            },
            ConditionValue::Null => ConditionValue::Null,
        }
    }
}

} // verus!

