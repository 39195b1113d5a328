//! The `Measure` type: an ordered sequence of values paired one-to-one with
//! non-negative error magnitudes, with propagation-aware arithmetic and
//! elementary functions.

use crate::aprox::round;
use crate::aprox::spec_aprox;
use crate::aprox::spec_round;
use crate::scalar::Scalar;
use vstd::prelude::*;

verus! {

/// How a measure is rendered.
#[derive(Debug, Clone, Copy, PartialEq, Eq, Structural)]
pub enum Style {
    /// `[values] +- [errors]`
    List,
    /// `value +- error, ...`
    PM,
    /// `value +- error`
    Table,
    /// `$value \pm error$`
    LatexTable,
    /// `$value plus.minus error$`
    TypstTable,
}

/// The texts of a sequence of strings.
pub open spec fn spec_texts(parts: Seq<String>) -> Seq<Seq<char>> {
    parts.map_values(|s: String| s@)
}

/// The concatenation of texts with a separator between neighbours.
pub open spec fn spec_join(parts: Seq<Seq<char>>, sep: Seq<char>) -> Seq<char>
    decreases parts.len(),
{
    if parts.len() == 0 {
        Seq::empty()
    } else if parts.len() == 1 {
        parts[0]
    } else {
        spec_join(parts.drop_last(), sep) + sep + parts.last()
    }
}

/// One rendered pair: the value, a plus-minus sign, the error.
pub open spec fn spec_pair(v: Seq<char>, e: Seq<char>) -> Seq<char> {
    v + " \u{b1} "@ + e
}

/// What `disp` returns: the rendered pairs laid out under a style.
pub open spec fn spec_disp(style: Style, vals: Seq<Seq<char>>, errs: Seq<Seq<char>>) -> Seq<
    char,
> {
    match style {
        Style::List => "["@ + spec_join(vals, ", "@) + "] \u{b1} ["@ + spec_join(errs, ", "@)
            + "]"@,
        Style::PM => spec_join(Seq::new(vals.len(), |i: int| spec_pair(vals[i], errs[i])), ", "@),
        Style::Table => {
            if vals.len() == 1 {
                spec_pair(vals[0], errs[0])
            } else {
                "This style is only for one value and its error."@
            }
        },
        Style::LatexTable => {
            if vals.len() == 1 {
                "$"@ + vals[0] + " \\pm "@ + errs[0] + "$"@
            } else {
                "This style is only for one value and its error."@
            }
        },
        Style::TypstTable => {
            if vals.len() == 1 {
                "$"@ + vals[0] + " plus.minus "@ + errs[0] + "$"@
            } else {
                "This style is only for one value and its error."@
            }
        },
    }
}

/// Joins rendered texts with a separator between neighbours.
fn join(parts: &Vec<String>, sep: &str) -> (r: String)
    ensures
        r@ == spec_join(spec_texts(parts@), sep@),
{
    let n = parts.len();
    let mut r = String::new();
    for i in 0..n
        invariant
            n == parts@.len(),
            r@ == spec_join(spec_texts(parts@).subrange(0, i as int), sep@),
    {
        if i > 0 {
            r.append(sep);
        }
        r.append(parts[i].as_str());
        proof {
            let texts = spec_texts(parts@);
            assert(texts.subrange(0, i + 1 as int).drop_last() =~= texts.subrange(0, i as int));
            assert(texts.subrange(0, i + 1 as int).last() == texts[i as int]);
        }
    }
    proof {
        assert(spec_texts(parts@).subrange(0, n as int) =~= spec_texts(parts@));
    }
    r
}

impl Style {
    /// Lays rendered value and error texts out under this style, pair by
    /// pair. The pair-listing style owes its caller at least one pair.
    pub fn disp(&self, value: &Vec<String>, error: &Vec<String>) -> (r: String)
        requires
            value@.len() == error@.len(),
            *self == Style::PM ==> value@.len() >= 1,
        ensures
            r@ == spec_disp(*self, spec_texts(value@), spec_texts(error@)),
    {
        match self {
            Style::List => {
                let mut r = String::from_str("[");
                r.append(join(value, ", ").as_str());
                r.append("] \u{b1} [");
                r.append(join(error, ", ").as_str());
                r.append("]");
                r
            },
            Style::PM => {
                let n = value.len();
                let mut pairs: Vec<String> = Vec::new();
                for i in 0..n
                    invariant
                        n == value@.len(),
                        value@.len() == error@.len(),
                        pairs@.len() == i,
                        forall|j: int|
                            0 <= j < i ==> spec_texts(pairs@)[j] == spec_pair(
                                spec_texts(value@)[j],
                                spec_texts(error@)[j],
                            ),
                {
                    let mut p = String::new();
                    p.append(value[i].as_str());
                    p.append(" \u{b1} ");
                    p.append(error[i].as_str());
                    proof {
                        assert(p@ =~= spec_pair(
                            spec_texts(value@)[i as int],
                            spec_texts(error@)[i as int],
                        ));
                    }
                    let ghost prev = pairs@;
                    let ghost gp = p@;
                    pairs.push(p);
                    proof {
                        assert(spec_texts(pairs@) =~= spec_texts(prev).push(gp));
                    }
                }
                proof {
                    assert(spec_texts(pairs@) =~= Seq::new(
                        spec_texts(value@).len(),
                        |i: int| spec_pair(spec_texts(value@)[i], spec_texts(error@)[i]),
                    ));
                }
                join(&pairs, ", ")
            },
            Style::Table => {
                if value.len() == 1 {
                    let mut r = String::new();
                    r.append(value[0].as_str());
                    r.append(" \u{b1} ");
                    r.append(error[0].as_str());
                    r
                } else {
                    String::from_str("This style is only for one value and its error.")
                }
            },
            Style::LatexTable => {
                if value.len() == 1 {
                    let mut r = String::from_str("$");
                    r.append(value[0].as_str());
                    r.append(" \\pm ");
                    r.append(error[0].as_str());
                    r.append("$");
                    r
                } else {
                    String::from_str("This style is only for one value and its error.")
                }
            },
            Style::TypstTable => {
                if value.len() == 1 {
                    let mut r = String::from_str("$");
                    r.append(value[0].as_str());
                    r.append(" plus.minus ");
                    r.append(error[0].as_str());
                    r.append("$");
                    r
                } else {
                    String::from_str("This style is only for one value and its error.")
                }
            },
        }
    }
}

/// A recoverable failure of `Measure` construction.
#[derive(Debug, Clone, Copy, PartialEq, Eq, Structural)]
pub enum MyError {
    /// The error vector's length is neither one nor the value count.
    InvalidErrorLen,
}

impl MyError {
    /// A human-readable account of the failure.
    pub fn message(&self) -> (s: String)
        ensures
            s@ == "You're only allowed to assign either one error for all values or one error for each value."@,
    {
        String::from_str(
            "You're only allowed to assign either one error for all values or one error for each value.",
        )
    }
}

/// A vector of values paired with uncertainties.
#[derive(Debug, PartialEq)]
pub struct Measure<T: Scalar> {
    value: Vec<T>,
    error: Vec<T>,
    style: Style,
}

impl<T: Scalar> Clone for Measure<T> {
    /// A copy of the measure, pair for pair.
    fn clone(&self) -> (r: Self)
        ensures
            r.spec_values() == self.spec_values(),
            r.spec_errors() == self.spec_errors(),
            r.spec_style() == self.spec_style(),
    {
        proof {
            use_type_invariant(self);
        }
        Measure { value: vec_copy(&self.value), error: vec_copy(&self.error), style: self.style }
    }
}

/// The error vector after broadcasting: a single error repeats once per
/// value, any other vector stands as given.
pub open spec fn spec_bcast<T: Scalar>(value: Seq<T>, error: Seq<T>) -> Seq<T> {
    if error.len() == 1 {
        Seq::new(value.len(), |i: int| error[0])
    } else {
        error
    }
}

/// A fresh vector holding `n` copies of `x`.
pub(crate) fn vec_of<T: Scalar>(n: usize, x: T) -> (r: Vec<T>)
    ensures
        r@ == Seq::new(n as nat, |i: int| x),
{
    let mut r: Vec<T> = Vec::new();
    for k in 0..n
        invariant
            r@.len() == k,
            forall|j: int| 0 <= j < k ==> r@[j] == x,
    {
        r.push(x);
    }
    assert(r@ =~= Seq::new(n as nat, |i: int| x));
    r
}

/// A fresh copy of a vector of scalars.
pub(crate) fn vec_copy<T: Scalar>(v: &Vec<T>) -> (r: Vec<T>)
    ensures
        r@ == v@,
{
    let mut r: Vec<T> = Vec::new();
    for k in 0..v.len()
        invariant
            r@.len() == k,
            forall|j: int| 0 <= j < k ==> r@[j] == v@[j],
    {
        r.push(v[k]);
    }
    assert(r@ =~= v@);
    r
}

impl<T: Scalar> Measure<T> {
    /// The values the measure holds.
    pub closed spec fn spec_values(self) -> Seq<T> {
        self.value@
    }

    /// The errors the measure holds.
    pub closed spec fn spec_errors(self) -> Seq<T> {
        self.error@
    }

    /// The style tag the measure carries.
    pub closed spec fn spec_style(self) -> Style {
        self.style
    }

    /// The number of value/error pairs.
    pub open spec fn spec_len(self) -> nat {
        self.spec_values().len()
    }

    /// Values and errors pair one-to-one.
    #[verifier::type_invariant]
    pub closed spec fn wf(self) -> bool {
        self.value@.len() == self.error@.len()
    }

    /// Constructs a measure from values and errors. A single error broadcasts
    /// to every value; any other length mismatch is refused. When asked to,
    /// the constructor also rounds each pair to the first significant figure
    /// of its error.
    pub fn new(value: Vec<T>, error: Vec<T>, aproximate: bool) -> (r: Result<Measure<T>, MyError>)
        ensures
            r is Err <==> value@.len() != error@.len() && error@.len() != 1,
            r is Err ==> r == Err::<Measure<T>, MyError>(MyError::InvalidErrorLen),
            r is Ok ==> ({
                let m = r->Ok_0;
                &&& m.wf()
                &&& m.spec_style() == Style::PM
                &&& m.spec_len() == value@.len()
                &&& forall|i: int|
                    0 <= i < value@.len() ==> m.spec_values()[i] == (if aproximate {
                        spec_aprox(value@[i], spec_bcast(value@, error@)[i]).0
                    } else {
                        value@[i]
                    })
                &&& forall|i: int|
                    0 <= i < value@.len() ==> m.spec_errors()[i] == (if aproximate {
                        spec_aprox(value@[i], spec_bcast(value@, error@)[i]).1
                    } else {
                        spec_bcast(value@, error@)[i]
                    })
            }),
    {
        if value.len() != error.len() && error.len() != 1 {
            return Err(MyError::InvalidErrorLen);
        }
        let ghost gvalue = value@;
        let ghost gerror = error@;
        let error = if error.len() == 1 {
            vec_of(value.len(), error[0])
        } else {
            error
        };
        assert(error@ =~= spec_bcast(gvalue, gerror));
        if aproximate {
            let n = value.len();
            let mut new_value: Vec<T> = Vec::new();
            let mut new_error: Vec<T> = Vec::new();
            for i in 0..n
                invariant
                    n == gvalue.len(),
                    value@ == gvalue,
                    error@ == spec_bcast(gvalue, gerror),
                    error@.len() == n,
                    new_value@.len() == i,
                    new_error@.len() == i,
                    forall|j: int|
                        0 <= j < i ==> new_value@[j] == spec_aprox(gvalue[j], spec_bcast(gvalue, gerror)[j]).0,
                    forall|j: int|
                        0 <= j < i ==> new_error@[j] == spec_aprox(gvalue[j], spec_bcast(gvalue, gerror)[j]).1,
            {
                let pair = crate::aprox::aprox(value[i], error[i]);
                new_value.push(pair.0);
                new_error.push(pair.1);
            }
            Ok(Measure { value: new_value, error: new_error, style: Style::PM })
        } else {
            Ok(Measure { value, error, style: Style::PM })
        }
    }

    /// The number of value/error pairs.
    pub fn len(&self) -> (r: usize)
        ensures
            r == self.spec_len(),
            r == self.spec_errors().len(),
    {
        proof {
            use_type_invariant(self);
        }
        self.value.len()
    }

    /// Whether the measure holds no pairs.
    pub fn is_empty(&self) -> (r: bool)
        ensures
            r == (self.spec_len() == 0),
    {
        self.len() == 0
    }

    /// The values of the measure.
    pub fn value(&self) -> (r: &Vec<T>)
        ensures
            r@ == self.spec_values(),
    {
        &self.value
    }

    /// The errors of the measure.
    pub fn error(&self) -> (r: &Vec<T>)
        ensures
            r@ == self.spec_errors(),
            r@.len() == self.spec_len(),
    {
        proof {
            use_type_invariant(self);
        }
        &self.error
    }

    /// The style of the measure.
    pub fn style(&self) -> (r: &Style)
        ensures
            *r == self.spec_style(),
    {
        &self.style
    }

    /// The same measure under another style.
    pub fn change_style(self, style: Style) -> (r: Measure<T>)
        ensures
            r.spec_values() == self.spec_values(),
            r.spec_errors() == self.spec_errors(),
            r.spec_style() == style,
    {
        proof {
            use_type_invariant(&self);
        }
        Measure { value: self.value, error: self.error, style }
    }

    /// The value and error vectors, side by side.
    pub fn unpack(&self) -> (r: (&Vec<T>, &Vec<T>))
        ensures
            r.0@ == self.spec_values(),
            r.1@ == self.spec_errors(),
    {
        (&self.value, &self.error)
    }

    /// One measure of length one per pair.
    pub fn list_of_measures(&self) -> (r: Vec<Measure<T>>)
        ensures
            r@.len() == self.spec_len(),
            forall|i: int|
                0 <= i < self.spec_len() ==> {
                    &&& (#[trigger] r@[i]).spec_len() == 1
                    &&& r@[i].spec_values()[0] == self.spec_values()[i]
                    &&& r@[i].spec_errors().len() == 1
                    &&& r@[i].spec_errors()[0] == self.spec_errors()[i]
                    &&& r@[i].spec_style() == Style::PM
                },
    {
        proof {
            use_type_invariant(self);
        }
        let n = self.value.len();
        let mut r: Vec<Measure<T>> = Vec::new();
        for i in 0..n
            invariant
                n == self.spec_len(),
                self.wf(),
                r@.len() == i,
                forall|j: int|
                    0 <= j < i ==> {
                        &&& (#[trigger] r@[j]).spec_len() == 1
                        &&& r@[j].spec_values()[0] == self.spec_values()[j]
                        &&& r@[j].spec_errors().len() == 1
                        &&& r@[j].spec_errors()[0] == self.spec_errors()[j]
                        &&& r@[j].spec_style() == Style::PM
                    },
        {
            r.push(
                Measure {
                    value: vec_of(1, self.value[i]),
                    error: vec_of(1, self.error[i]),
                    style: Style::PM,
                },
            );
        }
        r
    }

    /// The value/error pairs, in order.
    pub fn iter(&self) -> (r: Vec<(T, T)>)
        ensures
            r@.len() == self.spec_len(),
            forall|i: int|
                0 <= i < self.spec_len() ==> r@[i] == (self.spec_values()[i], self.spec_errors()[i]),
    {
        proof {
            use_type_invariant(self);
        }
        let n = self.value.len();
        let mut r: Vec<(T, T)> = Vec::new();
        for i in 0..n
            invariant
                n == self.spec_len(),
                self.wf(),
                r@.len() == i,
                forall|j: int|
                    0 <= j < i ==> r@[j] == (self.spec_values()[j], self.spec_errors()[j]),
        {
            r.push((self.value[i], self.error[i]));
        }
        r
    }

    /// The pair at an index, if there is one.
    pub fn get(&self, index: usize) -> (r: Option<(&T, &T)>)
        ensures
            index < self.spec_len() ==> (r matches Some(p) && *p.0 == self.spec_values()[index as int]
                && *p.1 == self.spec_errors()[index as int]),
            index >= self.spec_len() ==> r is None,
    {
        proof {
            use_type_invariant(self);
        }
        if index < self.value.len() {
            Some((&self.value[index], &self.error[index]))
        } else {
            None
        }
    }

    /// Replaces the pair at an index.
    pub fn set(&mut self, index: usize, measure: (T, T))
        requires
            index < old(self).spec_len(),
        ensures
            final(self).spec_values() == old(self).spec_values().update(index as int, measure.0),
            final(self).spec_errors() == old(self).spec_errors().update(index as int, measure.1),
            final(self).spec_style() == old(self).spec_style(),
    {
        proof {
            use_type_invariant(&*self);
        }
        self.value[index] = measure.0;
        self.error[index] = measure.1;
    }

    /// Replaces the value at an index.
    pub fn set_value(&mut self, index: usize, value: T)
        requires
            index < old(self).spec_len(),
        ensures
            final(self).spec_values() == old(self).spec_values().update(index as int, value),
            final(self).spec_errors() == old(self).spec_errors(),
            final(self).spec_style() == old(self).spec_style(),
    {
        proof {
            use_type_invariant(&*self);
        }
        self.value[index] = value;
    }

    /// Replaces the error at an index.
    pub fn set_error(&mut self, index: usize, error: T)
        requires
            index < old(self).spec_len(),
        ensures
            final(self).spec_values() == old(self).spec_values(),
            final(self).spec_errors() == old(self).spec_errors().update(index as int, error),
            final(self).spec_style() == old(self).spec_style(),
    {
        proof {
            use_type_invariant(&*self);
        }
        self.error[index] = error;
    }

    /// Rounds every pair to the first significant figure of its error.
    pub fn aprox(self) -> (r: Measure<T>)
        ensures
            r.spec_len() == self.spec_len(),
            r.spec_style() == self.spec_style(),
            forall|i: int|
                0 <= i < self.spec_len() ==> r.spec_values()[i] == spec_aprox(
                    self.spec_values()[i],
                    self.spec_errors()[i],
                ).0,
            forall|i: int|
                0 <= i < self.spec_len() ==> r.spec_errors()[i] == spec_aprox(
                    self.spec_values()[i],
                    self.spec_errors()[i],
                ).1,
    {
        proof {
            use_type_invariant(&self);
        }
        let n = self.value.len();
        let mut value: Vec<T> = Vec::new();
        let mut error: Vec<T> = Vec::new();
        for i in 0..n
            invariant
                n == self.spec_len(),
                self.wf(),
                value@.len() == i,
                error@.len() == i,
                forall|j: int|
                    0 <= j < i ==> value@[j] == spec_aprox(
                        self.spec_values()[j],
                        self.spec_errors()[j],
                    ).0,
                forall|j: int|
                    0 <= j < i ==> error@[j] == spec_aprox(
                        self.spec_values()[j],
                        self.spec_errors()[j],
                    ).1,
        {
            let pair = crate::aprox::aprox(self.value[i], self.error[i]);
            value.push(pair.0);
            error.push(pair.1);
        }
        Measure { value, error, style: self.style }
    }

    /// Rounds every value and error at the decimal position given.
    pub fn aprox_to(self, decimals: i32) -> (r: Measure<T>)
        ensures
            r.spec_len() == self.spec_len(),
            r.spec_style() == self.spec_style(),
            forall|i: int|
                0 <= i < self.spec_len() ==> r.spec_values()[i] == spec_round(
                    self.spec_values()[i],
                    decimals,
                ),
            forall|i: int|
                0 <= i < self.spec_len() ==> r.spec_errors()[i] == spec_round(
                    self.spec_errors()[i],
                    decimals,
                ),
    {
        proof {
            use_type_invariant(&self);
        }
        let n = self.value.len();
        let mut value: Vec<T> = Vec::new();
        let mut error: Vec<T> = Vec::new();
        for i in 0..n
            invariant
                n == self.spec_len(),
                self.wf(),
                value@.len() == i,
                error@.len() == i,
                forall|j: int| 0 <= j < i ==> value@[j] == spec_round(self.spec_values()[j], decimals),
                forall|j: int| 0 <= j < i ==> error@[j] == spec_round(self.spec_errors()[j], decimals),
        {
            value.push(round(self.value[i], decimals));
            error.push(round(self.error[i], decimals));
        }
        Measure { value, error, style: self.style }
    }

    /// The arithmetic mean of the values.
    pub open spec fn spec_mean(self) -> T {
        spec_sum(self.spec_values()).s_div(T::s_from_usize(self.spec_len() as usize))
    }

    /// The sample standard deviation of the values, with Bessel's correction.
    pub open spec fn spec_standard_deviation(self) -> T {
        spec_sum(
            Seq::new(self.spec_len(), |i: int| self.spec_values()[i].s_sub(self.spec_mean()).s_powi(2)),
        ).s_div(T::s_from_usize(self.spec_len() as usize).s_sub(T::s_one())).s_sqrt()
    }

    /// The standard error of the mean.
    pub open spec fn spec_standard_error(self) -> T {
        self.spec_standard_deviation().s_div(T::s_from_usize(self.spec_len() as usize).s_sqrt())
    }

    /// The arithmetic mean of the values.
    pub fn mean(&self) -> (r: T)
        ensures
            r == self.spec_mean(),
    {
        let total = sum(&self.value);
        total.div(T::from_usize(self.value.len()))
    }

    /// The sample standard deviation of the values, with Bessel's correction.
    pub fn standard_deviation(&self) -> (r: T)
        ensures
            r == self.spec_standard_deviation(),
    {
        let n = self.value.len();
        let m = self.mean();
        let mut terms: Vec<T> = Vec::new();
        for i in 0..n
            invariant
                n == self.spec_len(),
                m == self.spec_mean(),
                terms@.len() == i,
                forall|j: int|
                    0 <= j < i ==> terms@[j] == self.spec_values()[j].s_sub(
                        self.spec_mean(),
                    ).s_powi(2),
        {
            terms.push(self.value[i].sub(m).powi(2));
        }
        proof {
            assert(terms@ =~= Seq::new(
                self.spec_len(),
                |i: int| self.spec_values()[i].s_sub(self.spec_mean()).s_powi(2),
            ));
        }
        sum(&terms).div(T::from_usize(n).sub(T::one())).sqrt()
    }

    /// The standard error of the mean.
    pub fn standard_error(&self) -> (r: T)
        ensures
            r == self.spec_standard_error(),
    {
        self.standard_deviation().div(T::from_usize(self.value.len()).sqrt())
    }

    /// A best-estimate view: every value is the mean, every error combines
    /// the standard error with the pair's own error in quadrature.
    pub fn estimation(&self) -> (r: Measure<T>)
        ensures
            r.spec_len() == self.spec_len(),
            r.spec_style() == Style::PM,
            forall|i: int| 0 <= i < self.spec_len() ==> r.spec_values()[i] == self.spec_mean(),
            forall|i: int|
                0 <= i < self.spec_len() ==> r.spec_errors()[i] == spec_quad(
                    self.spec_standard_error(),
                    self.spec_errors()[i],
                ),
    {
        proof {
            use_type_invariant(self);
        }
        let n = self.value.len();
        let m = self.mean();
        let se = self.standard_error();
        let value = vec_of(n, m);
        let mut error: Vec<T> = Vec::new();
        for i in 0..n
            invariant
                n == self.spec_len(),
                self.wf(),
                se == self.spec_standard_error(),
                error@.len() == i,
                forall|j: int|
                    0 <= j < i ==> error@[j] == spec_quad(
                        self.spec_standard_error(),
                        self.spec_errors()[j],
                    ),
        {
            error.push(se.powi(2).add(self.error[i].powi(2)).sqrt());
        }
        Measure { value, error, style: Style::PM }
    }

    /// Raises every value to the power given, with first-order propagation.
    pub fn pow(&self, other: T) -> (r: Measure<T>)
        ensures
            r.spec_len() == self.spec_len(),
            r.spec_style() == Style::PM,
            forall|i: int|
                0 <= i < self.spec_len() ==> r.spec_values()[i] == self.spec_values()[i].s_powf(
                    other,
                ),
            forall|i: int|
                0 <= i < self.spec_len() ==> r.spec_errors()[i] == spec_pow_err(
                    self.spec_values()[i],
                    self.spec_errors()[i],
                    other,
                ),
    {
        proof {
            use_type_invariant(self);
        }
        let n = self.value.len();
        let mut value: Vec<T> = Vec::new();
        let mut error: Vec<T> = Vec::new();
        for i in 0..n
            invariant
                n == self.spec_len(),
                self.wf(),
                value@.len() == i,
                error@.len() == i,
                forall|j: int| 0 <= j < i ==> value@[j] == self.spec_values()[j].s_powf(other),
                forall|j: int|
                    0 <= j < i ==> error@[j] == spec_pow_err(
                        self.spec_values()[j],
                        self.spec_errors()[j],
                        other,
                    ),
        {
            value.push(self.value[i].powf(other));
            error.push(other.mul(self.value[i].powf(other.sub(T::one()))).mul(self.error[i]).abs());
        }
        Measure { value, error, style: Style::PM }
    }

    /// Converts degrees to radians, scaling values and errors alike.
    pub fn rad(&self) -> (r: Measure<T>)
        ensures
            r.spec_len() == self.spec_len(),
            r.spec_style() == Style::PM,
            forall|i: int|
                0 <= i < self.spec_len() ==> r.spec_values()[i] == self.spec_values()[i].s_mul(
                    T::s_pi(),
                ).s_div(T::s_from_usize(180)),
            forall|i: int|
                0 <= i < self.spec_len() ==> r.spec_errors()[i] == self.spec_errors()[i].s_mul(
                    T::s_pi(),
                ).s_div(T::s_from_usize(180)),
    {
        proof {
            use_type_invariant(self);
        }
        let n = self.value.len();
        let mut value: Vec<T> = Vec::new();
        let mut error: Vec<T> = Vec::new();
        for i in 0..n
            invariant
                n == self.spec_len(),
                self.wf(),
                value@.len() == i,
                error@.len() == i,
                forall|j: int|
                    0 <= j < i ==> value@[j] == self.spec_values()[j].s_mul(T::s_pi()).s_div(
                        T::s_from_usize(180),
                    ),
                forall|j: int|
                    0 <= j < i ==> error@[j] == self.spec_errors()[j].s_mul(T::s_pi()).s_div(
                        T::s_from_usize(180),
                    ),
        {
            value.push(self.value[i].mul(T::pi()).div(T::from_usize(180)));
            error.push(self.error[i].mul(T::pi()).div(T::from_usize(180)));
        }
        Measure { value, error, style: Style::PM }
    }

    /// Converts radians to degrees, scaling values and errors alike.
    pub fn grad(&self) -> (r: Measure<T>)
        ensures
            r.spec_len() == self.spec_len(),
            r.spec_style() == Style::PM,
            forall|i: int|
                0 <= i < self.spec_len() ==> r.spec_values()[i] == self.spec_values()[i].s_mul(
                    T::s_from_usize(180),
                ).s_div(T::s_pi()),
            forall|i: int|
                0 <= i < self.spec_len() ==> r.spec_errors()[i] == self.spec_errors()[i].s_mul(
                    T::s_from_usize(180),
                ).s_div(T::s_pi()),
    {
        proof {
            use_type_invariant(self);
        }
        let n = self.value.len();
        let mut value: Vec<T> = Vec::new();
        let mut error: Vec<T> = Vec::new();
        for i in 0..n
            invariant
                n == self.spec_len(),
                self.wf(),
                value@.len() == i,
                error@.len() == i,
                forall|j: int|
                    0 <= j < i ==> value@[j] == self.spec_values()[j].s_mul(
                        T::s_from_usize(180),
                    ).s_div(T::s_pi()),
                forall|j: int|
                    0 <= j < i ==> error@[j] == self.spec_errors()[j].s_mul(
                        T::s_from_usize(180),
                    ).s_div(T::s_pi()),
        {
            value.push(self.value[i].mul(T::from_usize(180)).div(T::pi()));
            error.push(self.error[i].mul(T::from_usize(180)).div(T::pi()));
        }
        Measure { value, error, style: Style::PM }
    }

    /// The square root of every value, with first-order propagation.
    pub fn sqrt(&self) -> (r: Measure<T>)
        ensures
            r.spec_len() == self.spec_len(),
            r.spec_style() == Style::PM,
            forall|i: int|
                0 <= i < self.spec_len() ==> r.spec_values()[i] == self.spec_values()[i].s_sqrt(),
            forall|i: int|
                0 <= i < self.spec_len() ==> r.spec_errors()[i] == self.spec_errors()[i].s_div(
                    T::s_from_usize(2).s_mul(self.spec_values()[i].s_sqrt()),
                ),
    {
        proof {
            use_type_invariant(self);
        }
        let n = self.value.len();
        let mut value: Vec<T> = Vec::new();
        let mut error: Vec<T> = Vec::new();
        for i in 0..n
            invariant
                n == self.spec_len(),
                self.wf(),
                value@.len() == i,
                error@.len() == i,
                forall|j: int| 0 <= j < i ==> value@[j] == self.spec_values()[j].s_sqrt(),
                forall|j: int|
                    0 <= j < i ==> error@[j] == self.spec_errors()[j].s_div(
                        T::s_from_usize(2).s_mul(self.spec_values()[j].s_sqrt()),
                    ),
        {
            value.push(self.value[i].sqrt());
            error.push(self.error[i].div(T::from_usize(2).mul(self.value[i].sqrt())));
        }
        Measure { value, error, style: Style::PM }
    }

    /// The absolute value of every value; errors stand unchanged.
    pub fn abs(&self) -> (r: Measure<T>)
        ensures
            r.spec_len() == self.spec_len(),
            r.spec_style() == Style::PM,
            forall|i: int|
                0 <= i < self.spec_len() ==> r.spec_values()[i] == self.spec_values()[i].s_abs(),
            forall|i: int|
                0 <= i < self.spec_len() ==> r.spec_errors()[i] == self.spec_errors()[i],
    {
        proof {
            use_type_invariant(self);
        }
        let n = self.value.len();
        let mut value: Vec<T> = Vec::new();
        for i in 0..n
            invariant
                n == self.spec_len(),
                self.wf(),
                value@.len() == i,
                forall|j: int| 0 <= j < i ==> value@[j] == self.spec_values()[j].s_abs(),
        {
            value.push(self.value[i].abs());
        }
        let error = vec_copy(&self.error);
        Measure { value, error, style: Style::PM }
    }

    /// The sine of every value, taken in radians.
    pub fn sin(&self) -> (r: Measure<T>)
        ensures
            r.spec_len() == self.spec_len(),
            r.spec_style() == Style::PM,
            forall|i: int|
                0 <= i < self.spec_len() ==> r.spec_values()[i] == self.spec_values()[i].s_sin(),
            forall|i: int|
                0 <= i < self.spec_len() ==> r.spec_errors()[i] == spec_sin_err(
                    self.spec_values()[i],
                    self.spec_errors()[i],
                ),
    {
        proof {
            use_type_invariant(self);
        }
        let n = self.value.len();
        let mut value: Vec<T> = Vec::new();
        let mut error: Vec<T> = Vec::new();
        for i in 0..n
            invariant
                n == self.spec_len(),
                self.wf(),
                value@.len() == i,
                error@.len() == i,
                forall|j: int| 0 <= j < i ==> value@[j] == self.spec_values()[j].s_sin(),
                forall|j: int|
                    0 <= j < i ==> error@[j] == spec_sin_err(
                        self.spec_values()[j],
                        self.spec_errors()[j],
                    ),
        {
            let sval = self.value[i];
            let serr = self.error[i];
            let v = sval.sin();
            let e = if v.eq_v(T::one()) || v.eq_v(T::zero().sub(T::one())) {
                sval.add(serr).sin().sub(sval.sin()).abs()
            } else {
                sval.cos().mul(serr).abs()
            };
            value.push(v);
            error.push(e);
        }
        Measure { value, error, style: Style::PM }
    }

    /// The cosine of every value, taken in radians.
    pub fn cos(&self) -> (r: Measure<T>)
        ensures
            r.spec_len() == self.spec_len(),
            r.spec_style() == Style::PM,
            forall|i: int|
                0 <= i < self.spec_len() ==> r.spec_values()[i] == self.spec_values()[i].s_cos(),
            forall|i: int|
                0 <= i < self.spec_len() ==> r.spec_errors()[i] == spec_cos_err(
                    self.spec_values()[i],
                    self.spec_errors()[i],
                ),
    {
        proof {
            use_type_invariant(self);
        }
        let n = self.value.len();
        let mut value: Vec<T> = Vec::new();
        let mut error: Vec<T> = Vec::new();
        for i in 0..n
            invariant
                n == self.spec_len(),
                self.wf(),
                value@.len() == i,
                error@.len() == i,
                forall|j: int| 0 <= j < i ==> value@[j] == self.spec_values()[j].s_cos(),
                forall|j: int|
                    0 <= j < i ==> error@[j] == spec_cos_err(
                        self.spec_values()[j],
                        self.spec_errors()[j],
                    ),
        {
            let sval = self.value[i];
            let serr = self.error[i];
            let v = sval.cos();
            let e = if v.eq_v(T::one()) || v.eq_v(T::zero().sub(T::one())) {
                sval.add(serr).cos().sub(sval.cos()).abs()
            } else {
                sval.sin().mul(serr).abs()
            };
            value.push(v);
            error.push(e);
        }
        Measure { value, error, style: Style::PM }
    }

    /// The tangent of every value, taken in radians.
    pub fn tan(&self) -> (r: Measure<T>)
        ensures
            r.spec_len() == self.spec_len(),
            r.spec_style() == Style::PM,
            forall|i: int|
                0 <= i < self.spec_len() ==> r.spec_values()[i] == self.spec_values()[i].s_tan(),
            forall|i: int|
                0 <= i < self.spec_len() ==> r.spec_errors()[i] == T::s_one().s_add(
                    self.spec_values()[i].s_tan().s_powi(2),
                ).s_mul(self.spec_errors()[i]),
    {
        proof {
            use_type_invariant(self);
        }
        let n = self.value.len();
        let mut value: Vec<T> = Vec::new();
        let mut error: Vec<T> = Vec::new();
        for i in 0..n
            invariant
                n == self.spec_len(),
                self.wf(),
                value@.len() == i,
                error@.len() == i,
                forall|j: int| 0 <= j < i ==> value@[j] == self.spec_values()[j].s_tan(),
                forall|j: int|
                    0 <= j < i ==> error@[j] == T::s_one().s_add(
                        self.spec_values()[j].s_tan().s_powi(2),
                    ).s_mul(self.spec_errors()[j]),
        {
            let v = self.value[i].tan();
            value.push(v);
            error.push(T::one().add(v.powi(2)).mul(self.error[i]));
        }
        Measure { value, error, style: Style::PM }
    }

    /// The arcsine of every value, in radians.
    pub fn asin(&self) -> (r: Measure<T>)
        ensures
            r.spec_len() == self.spec_len(),
            r.spec_style() == Style::PM,
            forall|i: int|
                0 <= i < self.spec_len() ==> r.spec_values()[i] == self.spec_values()[i].s_asin(),
            forall|i: int|
                0 <= i < self.spec_len() ==> r.spec_errors()[i] == spec_asin_err(
                    self.spec_values()[i],
                    self.spec_errors()[i],
                ),
    {
        proof {
            use_type_invariant(self);
        }
        let n = self.value.len();
        let mut value: Vec<T> = Vec::new();
        let mut error: Vec<T> = Vec::new();
        for i in 0..n
            invariant
                n == self.spec_len(),
                self.wf(),
                value@.len() == i,
                error@.len() == i,
                forall|j: int| 0 <= j < i ==> value@[j] == self.spec_values()[j].s_asin(),
                forall|j: int|
                    0 <= j < i ==> error@[j] == spec_asin_err(
                        self.spec_values()[j],
                        self.spec_errors()[j],
                    ),
        {
            let val = self.value[i];
            let err = self.error[i];
            let e = if !val.eq_v(T::one()) && !val.eq_v(T::zero().sub(T::one())) {
                err.div(T::one().sub(val.powi(2)).sqrt())
            } else {
                val.add(err).asin().sub(val.asin()).abs()
            };
            value.push(val.asin());
            error.push(e);
        }
        Measure { value, error, style: Style::PM }
    }

    /// The arccosine of every value, in radians.
    pub fn acos(&self) -> (r: Measure<T>)
        ensures
            r.spec_len() == self.spec_len(),
            r.spec_style() == Style::PM,
            forall|i: int|
                0 <= i < self.spec_len() ==> r.spec_values()[i] == self.spec_values()[i].s_acos(),
            forall|i: int|
                0 <= i < self.spec_len() ==> r.spec_errors()[i] == spec_acos_err(
                    self.spec_values()[i],
                    self.spec_errors()[i],
                ),
    {
        proof {
            use_type_invariant(self);
        }
        let n = self.value.len();
        let mut value: Vec<T> = Vec::new();
        let mut error: Vec<T> = Vec::new();
        for i in 0..n
            invariant
                n == self.spec_len(),
                self.wf(),
                value@.len() == i,
                error@.len() == i,
                forall|j: int| 0 <= j < i ==> value@[j] == self.spec_values()[j].s_acos(),
                forall|j: int|
                    0 <= j < i ==> error@[j] == spec_acos_err(
                        self.spec_values()[j],
                        self.spec_errors()[j],
                    ),
        {
            let val = self.value[i];
            let err = self.error[i];
            let e = if !val.eq_v(T::one()) && !val.eq_v(T::zero().sub(T::one())) {
                err.div(T::one().sub(val.powi(2)).sqrt())
            } else {
                let d = if val.gt_v(T::zero()) {
                    val.sub(err)
                } else {
                    val.add(err)
                };
                d.acos().sub(val.acos()).abs()
            };
            value.push(val.acos());
            error.push(e);
        }
        Measure { value, error, style: Style::PM }
    }

    /// The arctangent of every value, in radians.
    pub fn atan(&self) -> (r: Measure<T>)
        ensures
            r.spec_len() == self.spec_len(),
            r.spec_style() == Style::PM,
            forall|i: int|
                0 <= i < self.spec_len() ==> r.spec_values()[i] == self.spec_values()[i].s_atan(),
            forall|i: int|
                0 <= i < self.spec_len() ==> r.spec_errors()[i] == self.spec_errors()[i].s_div(
                    T::s_one().s_add(self.spec_values()[i].s_powi(2)),
                ),
    {
        proof {
            use_type_invariant(self);
        }
        let n = self.value.len();
        let mut value: Vec<T> = Vec::new();
        let mut error: Vec<T> = Vec::new();
        for i in 0..n
            invariant
                n == self.spec_len(),
                self.wf(),
                value@.len() == i,
                error@.len() == i,
                forall|j: int| 0 <= j < i ==> value@[j] == self.spec_values()[j].s_atan(),
                forall|j: int|
                    0 <= j < i ==> error@[j] == self.spec_errors()[j].s_div(
                        T::s_one().s_add(self.spec_values()[j].s_powi(2)),
                    ),
        {
            value.push(self.value[i].atan());
            error.push(self.error[i].div(T::one().add(self.value[i].powi(2))));
        }
        Measure { value, error, style: Style::PM }
    }

    /// The four-quadrant arctangent of two measures, paired index by index up
    /// to the shorter length.
    pub fn atan2(&self, other: &Measure<T>) -> (r: Measure<T>)
        ensures
            r.spec_len() == vstd::math::min(self.spec_len() as int, other.spec_len() as int),
            r.spec_style() == Style::PM,
            forall|i: int|
                0 <= i < r.spec_len() ==> r.spec_values()[i] == self.spec_values()[i].s_atan2(
                    other.spec_values()[i],
                ),
            forall|i: int|
                0 <= i < r.spec_len() ==> r.spec_errors()[i] == spec_atan2_err(
                    self.spec_values()[i],
                    self.spec_errors()[i],
                    other.spec_values()[i],
                    other.spec_errors()[i],
                ),
    {
        proof {
            use_type_invariant(self);
            use_type_invariant(other);
        }
        let n = if self.value.len() < other.value.len() {
            self.value.len()
        } else {
            other.value.len()
        };
        let mut value: Vec<T> = Vec::new();
        let mut error: Vec<T> = Vec::new();
        for i in 0..n
            invariant
                n == vstd::math::min(self.spec_len() as int, other.spec_len() as int),
                self.wf(),
                other.wf(),
                value@.len() == i,
                error@.len() == i,
                forall|j: int|
                    0 <= j < i ==> value@[j] == self.spec_values()[j].s_atan2(
                        other.spec_values()[j],
                    ),
                forall|j: int|
                    0 <= j < i ==> error@[j] == spec_atan2_err(
                        self.spec_values()[j],
                        self.spec_errors()[j],
                        other.spec_values()[j],
                        other.spec_errors()[j],
                    ),
        {
            let sval = self.value[i];
            let serr = self.error[i];
            let oval = other.value[i];
            let oerr = other.error[i];
            value.push(sval.atan2(oval));
            error.push(
                oval.mul(serr).powi(2).add(sval.mul(oerr).powi(2)).sqrt().div(
                    sval.powi(2).add(oval.powi(2)),
                ),
            );
        }
        Measure { value, error, style: Style::PM }
    }

    /// The natural logarithm of every value, with first-order propagation.
    pub fn ln(&self) -> (r: Measure<T>)
        ensures
            r.spec_len() == self.spec_len(),
            r.spec_style() == Style::PM,
            forall|i: int|
                0 <= i < self.spec_len() ==> r.spec_values()[i] == self.spec_values()[i].s_ln(),
            forall|i: int|
                0 <= i < self.spec_len() ==> r.spec_errors()[i] == T::s_one().s_div(
                    self.spec_values()[i],
                ).s_abs().s_mul(self.spec_errors()[i]),
    {
        proof {
            use_type_invariant(self);
        }
        let n = self.value.len();
        let mut value: Vec<T> = Vec::new();
        let mut error: Vec<T> = Vec::new();
        for i in 0..n
            invariant
                n == self.spec_len(),
                self.wf(),
                value@.len() == i,
                error@.len() == i,
                forall|j: int| 0 <= j < i ==> value@[j] == self.spec_values()[j].s_ln(),
                forall|j: int|
                    0 <= j < i ==> error@[j] == T::s_one().s_div(self.spec_values()[j]).s_abs().s_mul(
                        self.spec_errors()[j],
                    ),
        {
            value.push(self.value[i].ln());
            error.push(T::one().div(self.value[i]).abs().mul(self.error[i]));
        }
        Measure { value, error, style: Style::PM }
    }

    /// The exponential of every value; the propagated error scales the
    /// original error by the magnitude of the original value.
    pub fn exp(&self) -> (r: Measure<T>)
        ensures
            r.spec_len() == self.spec_len(),
            r.spec_style() == Style::PM,
            forall|i: int|
                0 <= i < self.spec_len() ==> r.spec_values()[i] == self.spec_values()[i].s_exp(),
            forall|i: int|
                0 <= i < self.spec_len() ==> r.spec_errors()[i] == self.spec_values()[i].s_abs().s_mul(
                    self.spec_errors()[i],
                ),
    {
        proof {
            use_type_invariant(self);
        }
        let n = self.value.len();
        let mut value: Vec<T> = Vec::new();
        let mut error: Vec<T> = Vec::new();
        for i in 0..n
            invariant
                n == self.spec_len(),
                self.wf(),
                value@.len() == i,
                error@.len() == i,
                forall|j: int| 0 <= j < i ==> value@[j] == self.spec_values()[j].s_exp(),
                forall|j: int|
                    0 <= j < i ==> error@[j] == self.spec_values()[j].s_abs().s_mul(
                        self.spec_errors()[j],
                    ),
        {
            value.push(self.value[i].exp());
            error.push(self.value[i].abs().mul(self.error[i]));
        }
        Measure { value, error, style: Style::PM }
    }

    /// Consecutive differences: each value is the next minus the current, and
    /// each error combines the two adjacent errors in quadrature.
    pub fn delta(&self) -> (r: Measure<T>)
        ensures
            r.spec_style() == Style::PM,
            self.spec_len() == 0 ==> r.spec_len() == 0,
            self.spec_len() > 0 ==> r.spec_len() == self.spec_len() - 1,
            forall|i: int|
                0 <= i < r.spec_len() ==> r.spec_values()[i] == self.spec_values()[i + 1].s_sub(
                    self.spec_values()[i],
                ),
            forall|i: int|
                0 <= i < r.spec_len() ==> r.spec_errors()[i] == spec_quad(
                    self.spec_errors()[i],
                    self.spec_errors()[i + 1],
                ),
    {
        proof {
            use_type_invariant(self);
        }
        let n = self.value.len();
        let mut value: Vec<T> = Vec::new();
        let mut error: Vec<T> = Vec::new();
        if n == 0 {
            return Measure { value, error, style: Style::PM };
        }
        for i in 0..n - 1
            invariant
                n == self.spec_len(),
                n >= 1,
                self.wf(),
                value@.len() == i,
                error@.len() == i,
                forall|j: int|
                    0 <= j < i ==> value@[j] == self.spec_values()[j + 1].s_sub(
                        self.spec_values()[j],
                    ),
                forall|j: int|
                    0 <= j < i ==> error@[j] == spec_quad(
                        self.spec_errors()[j],
                        self.spec_errors()[j + 1],
                    ),
        {
            value.push(self.value[i + 1].sub(self.value[i]));
            error.push(self.error[i].powi(2).add(self.error[i + 1].powi(2)).sqrt());
        }
        Measure { value, error, style: Style::PM }
    }

    /// The value at an index after broadcasting: a measure of length one
    /// stands for its single value at every index.
    pub open spec fn bval(self, i: int) -> T {
        if self.spec_len() == 1 {
            self.spec_values()[0]
        } else {
            self.spec_values()[i]
        }
    }

    /// The error at an index after broadcasting.
    pub open spec fn berr(self, i: int) -> T {
        if self.spec_len() == 1 {
            self.spec_errors()[0]
        } else {
            self.spec_errors()[i]
        }
    }

    /// Whether two measures can face each other in arithmetic: either
    /// broadcasts, or the lengths agree.
    pub open spec fn compatible(self, other: Measure<T>) -> bool {
        self.spec_len() == 1 || other.spec_len() == 1 || self.spec_len() == other.spec_len()
    }

    /// Elementwise sum, with broadcasting; errors combine in quadrature.
    pub fn add(&self, other: &Measure<T>) -> (r: Measure<T>)
        requires
            self.compatible(*other),
        ensures
            r.spec_len() == spec_blen(*self, *other),
            r.spec_style() == Style::PM,
            forall|i: int|
                0 <= i < r.spec_len() ==> r.spec_values()[i] == self.bval(i).s_add(other.bval(i)),
            forall|i: int|
                0 <= i < r.spec_len() ==> r.spec_errors()[i] == spec_quad(
                    self.berr(i),
                    other.berr(i),
                ),
    {
        proof {
            use_type_invariant(self);
            use_type_invariant(other);
        }
        let mut value: Vec<T> = Vec::new();
        let mut error: Vec<T> = Vec::new();
        if self.value.len() == 1 {
            let n = other.value.len();
            for i in 0..n
                invariant
                    n == other.spec_len(),
                    self.spec_len() == 1,
                    self.wf(),
                    other.wf(),
                    value@.len() == i,
                    error@.len() == i,
                    forall|j: int| 0 <= j < i ==> value@[j] == self.bval(j).s_add(other.bval(j)),
                    forall|j: int|
                        0 <= j < i ==> error@[j] == spec_quad(self.berr(j), other.berr(j)),
            {
                value.push(self.value[0].add(other.value[i]));
                error.push(self.error[0].powi(2).add(other.error[i].powi(2)).sqrt());
            }
        } else if other.value.len() == 1 {
            let n = self.value.len();
            for i in 0..n
                invariant
                    n == self.spec_len(),
                    other.spec_len() == 1,
                    self.spec_len() != 1,
                    self.wf(),
                    other.wf(),
                    value@.len() == i,
                    error@.len() == i,
                    forall|j: int| 0 <= j < i ==> value@[j] == self.bval(j).s_add(other.bval(j)),
                    forall|j: int|
                        0 <= j < i ==> error@[j] == spec_quad(self.berr(j), other.berr(j)),
            {
                value.push(self.value[i].add(other.value[0]));
                error.push(self.error[i].powi(2).add(other.error[0].powi(2)).sqrt());
            }
        } else {
            let n = self.value.len();
            for i in 0..n
                invariant
                    n == self.spec_len(),
                    self.spec_len() == other.spec_len(),
                    self.spec_len() != 1,
                    self.wf(),
                    other.wf(),
                    value@.len() == i,
                    error@.len() == i,
                    forall|j: int| 0 <= j < i ==> value@[j] == self.bval(j).s_add(other.bval(j)),
                    forall|j: int|
                        0 <= j < i ==> error@[j] == spec_quad(self.berr(j), other.berr(j)),
            {
                value.push(self.value[i].add(other.value[i]));
                error.push(self.error[i].powi(2).add(other.error[i].powi(2)).sqrt());
            }
        }
        Measure { value, error, style: Style::PM }
    }

    /// Elementwise difference, with broadcasting; errors combine in
    /// quadrature. A broadcast single left operand is the minuend of every
    /// pair.
    pub fn sub(&self, other: &Measure<T>) -> (r: Measure<T>)
        requires
            self.compatible(*other),
        ensures
            r.spec_len() == spec_blen(*self, *other),
            r.spec_style() == Style::PM,
            forall|i: int|
                0 <= i < r.spec_len() ==> r.spec_values()[i] == self.bval(i).s_sub(other.bval(i)),
            forall|i: int|
                0 <= i < r.spec_len() ==> r.spec_errors()[i] == spec_quad(
                    self.berr(i),
                    other.berr(i),
                ),
    {
        proof {
            use_type_invariant(self);
            use_type_invariant(other);
        }
        let mut value: Vec<T> = Vec::new();
        let mut error: Vec<T> = Vec::new();
        if self.value.len() == 1 {
            let n = other.value.len();
            for i in 0..n
                invariant
                    n == other.spec_len(),
                    self.spec_len() == 1,
                    self.wf(),
                    other.wf(),
                    value@.len() == i,
                    error@.len() == i,
                    forall|j: int| 0 <= j < i ==> value@[j] == self.bval(j).s_sub(other.bval(j)),
                    forall|j: int|
                        0 <= j < i ==> error@[j] == spec_quad(self.berr(j), other.berr(j)),
            {
                value.push(self.value[0].sub(other.value[i]));
                error.push(self.error[0].powi(2).add(other.error[i].powi(2)).sqrt());
            }
        } else if other.value.len() == 1 {
            let n = self.value.len();
            for i in 0..n
                invariant
                    n == self.spec_len(),
                    other.spec_len() == 1,
                    self.spec_len() != 1,
                    self.wf(),
                    other.wf(),
                    value@.len() == i,
                    error@.len() == i,
                    forall|j: int| 0 <= j < i ==> value@[j] == self.bval(j).s_sub(other.bval(j)),
                    forall|j: int|
                        0 <= j < i ==> error@[j] == spec_quad(self.berr(j), other.berr(j)),
            {
                value.push(self.value[i].sub(other.value[0]));
                error.push(self.error[i].powi(2).add(other.error[0].powi(2)).sqrt());
            }
        } else {
            let n = self.value.len();
            for i in 0..n
                invariant
                    n == self.spec_len(),
                    self.spec_len() == other.spec_len(),
                    self.spec_len() != 1,
                    self.wf(),
                    other.wf(),
                    value@.len() == i,
                    error@.len() == i,
                    forall|j: int| 0 <= j < i ==> value@[j] == self.bval(j).s_sub(other.bval(j)),
                    forall|j: int|
                        0 <= j < i ==> error@[j] == spec_quad(self.berr(j), other.berr(j)),
            {
                value.push(self.value[i].sub(other.value[i]));
                error.push(self.error[i].powi(2).add(other.error[i].powi(2)).sqrt());
            }
        }
        Measure { value, error, style: Style::PM }
    }

    /// Elementwise product, with broadcasting; errors combine the two
    /// first-order contributions in quadrature.
    pub fn mul(&self, other: &Measure<T>) -> (r: Measure<T>)
        requires
            self.compatible(*other),
        ensures
            r.spec_len() == spec_blen(*self, *other),
            r.spec_style() == Style::PM,
            forall|i: int|
                0 <= i < r.spec_len() ==> r.spec_values()[i] == self.bval(i).s_mul(other.bval(i)),
            forall|i: int|
                0 <= i < r.spec_len() ==> r.spec_errors()[i] == spec_mul_err(*self, *other, i),
    {
        proof {
            use_type_invariant(self);
            use_type_invariant(other);
        }
        let mut value: Vec<T> = Vec::new();
        let mut error: Vec<T> = Vec::new();
        if self.value.len() == 1 {
            let n = other.value.len();
            for i in 0..n
                invariant
                    n == other.spec_len(),
                    self.spec_len() == 1,
                    self.wf(),
                    other.wf(),
                    value@.len() == i,
                    error@.len() == i,
                    forall|j: int| 0 <= j < i ==> value@[j] == self.bval(j).s_mul(other.bval(j)),
                    forall|j: int| 0 <= j < i ==> error@[j] == spec_mul_err(*self, *other, j),
            {
                value.push(self.value[0].mul(other.value[i]));
                error.push(
                    other.value[i].mul(self.error[0]).powi(2).add(
                        other.error[i].mul(self.value[0]).powi(2),
                    ).sqrt(),
                );
            }
        } else if other.value.len() == 1 {
            let n = self.value.len();
            for i in 0..n
                invariant
                    n == self.spec_len(),
                    other.spec_len() == 1,
                    self.spec_len() != 1,
                    self.wf(),
                    other.wf(),
                    value@.len() == i,
                    error@.len() == i,
                    forall|j: int| 0 <= j < i ==> value@[j] == self.bval(j).s_mul(other.bval(j)),
                    forall|j: int| 0 <= j < i ==> error@[j] == spec_mul_err(*self, *other, j),
            {
                value.push(self.value[i].mul(other.value[0]));
                error.push(
                    other.value[0].mul(self.error[i]).powi(2).add(
                        self.value[i].mul(other.error[0]).powi(2),
                    ).sqrt(),
                );
            }
        } else {
            let n = self.value.len();
            for i in 0..n
                invariant
                    n == self.spec_len(),
                    self.spec_len() == other.spec_len(),
                    self.spec_len() != 1,
                    self.wf(),
                    other.wf(),
                    value@.len() == i,
                    error@.len() == i,
                    forall|j: int| 0 <= j < i ==> value@[j] == self.bval(j).s_mul(other.bval(j)),
                    forall|j: int| 0 <= j < i ==> error@[j] == spec_mul_err(*self, *other, j),
            {
                value.push(self.value[i].mul(other.value[i]));
                error.push(
                    other.value[i].mul(self.error[i]).powi(2).add(
                        self.value[i].mul(other.error[i]).powi(2),
                    ).sqrt(),
                );
            }
        }
        Measure { value, error, style: Style::PM }
    }

    /// Elementwise quotient, with broadcasting; errors combine the two
    /// first-order contributions in quadrature.
    pub fn div(&self, other: &Measure<T>) -> (r: Measure<T>)
        requires
            self.compatible(*other),
        ensures
            r.spec_len() == spec_blen(*self, *other),
            r.spec_style() == Style::PM,
            forall|i: int|
                0 <= i < r.spec_len() ==> r.spec_values()[i] == self.bval(i).s_div(other.bval(i)),
            forall|i: int|
                0 <= i < r.spec_len() ==> r.spec_errors()[i] == spec_div_err(
                    self.bval(i),
                    self.berr(i),
                    other.bval(i),
                    other.berr(i),
                ),
    {
        proof {
            use_type_invariant(self);
            use_type_invariant(other);
        }
        let mut value: Vec<T> = Vec::new();
        let mut error: Vec<T> = Vec::new();
        if self.value.len() == 1 {
            let n = other.value.len();
            for i in 0..n
                invariant
                    n == other.spec_len(),
                    self.spec_len() == 1,
                    self.wf(),
                    other.wf(),
                    value@.len() == i,
                    error@.len() == i,
                    forall|j: int| 0 <= j < i ==> value@[j] == self.bval(j).s_div(other.bval(j)),
                    forall|j: int|
                        0 <= j < i ==> error@[j] == spec_div_err(
                            self.bval(j),
                            self.berr(j),
                            other.bval(j),
                            other.berr(j),
                        ),
            {
                value.push(self.value[0].div(other.value[i]));
                error.push(
                    self.error[0].div(other.value[i]).powi(2).add(
                        self.value[0].mul(other.error[i]).div(other.value[i].powi(2)).powi(2),
                    ).sqrt(),
                );
            }
        } else if other.value.len() == 1 {
            let n = self.value.len();
            for i in 0..n
                invariant
                    n == self.spec_len(),
                    other.spec_len() == 1,
                    self.spec_len() != 1,
                    self.wf(),
                    other.wf(),
                    value@.len() == i,
                    error@.len() == i,
                    forall|j: int| 0 <= j < i ==> value@[j] == self.bval(j).s_div(other.bval(j)),
                    forall|j: int|
                        0 <= j < i ==> error@[j] == spec_div_err(
                            self.bval(j),
                            self.berr(j),
                            other.bval(j),
                            other.berr(j),
                        ),
            {
                value.push(self.value[i].div(other.value[0]));
                error.push(
                    self.error[i].div(other.value[0]).powi(2).add(
                        self.value[i].mul(other.error[0]).div(other.value[0].powi(2)).powi(2),
                    ).sqrt(),
                );
            }
        } else {
            let n = self.value.len();
            for i in 0..n
                invariant
                    n == self.spec_len(),
                    self.spec_len() == other.spec_len(),
                    self.spec_len() != 1,
                    self.wf(),
                    other.wf(),
                    value@.len() == i,
                    error@.len() == i,
                    forall|j: int| 0 <= j < i ==> value@[j] == self.bval(j).s_div(other.bval(j)),
                    forall|j: int|
                        0 <= j < i ==> error@[j] == spec_div_err(
                            self.bval(j),
                            self.berr(j),
                            other.bval(j),
                            other.berr(j),
                        ),
            {
                value.push(self.value[i].div(other.value[i]));
                error.push(
                    self.error[i].div(other.value[i]).powi(2).add(
                        self.value[i].mul(other.error[i]).div(other.value[i].powi(2)).powi(2),
                    ).sqrt(),
                );
            }
        }
        Measure { value, error, style: Style::PM }
    }

    /// Adds a plain number to every value; errors stand unchanged.
    pub fn add_num(&self, num: T) -> (r: Measure<T>)
        ensures
            r.spec_len() == self.spec_len(),
            r.spec_style() == Style::PM,
            forall|i: int|
                0 <= i < self.spec_len() ==> r.spec_values()[i] == self.spec_values()[i].s_add(num),
            forall|i: int|
                0 <= i < self.spec_len() ==> r.spec_errors()[i] == self.spec_errors()[i],
    {
        proof {
            use_type_invariant(self);
        }
        let n = self.value.len();
        let mut value: Vec<T> = Vec::new();
        for i in 0..n
            invariant
                n == self.spec_len(),
                self.wf(),
                value@.len() == i,
                forall|j: int| 0 <= j < i ==> value@[j] == self.spec_values()[j].s_add(num),
        {
            value.push(self.value[i].add(num));
        }
        let error = vec_copy(&self.error);
        Measure { value, error, style: Style::PM }
    }

    /// Subtracts a plain number from every value; errors stand unchanged.
    pub fn sub_num(&self, num: T) -> (r: Measure<T>)
        ensures
            r.spec_len() == self.spec_len(),
            r.spec_style() == Style::PM,
            forall|i: int|
                0 <= i < self.spec_len() ==> r.spec_values()[i] == self.spec_values()[i].s_sub(num),
            forall|i: int|
                0 <= i < self.spec_len() ==> r.spec_errors()[i] == self.spec_errors()[i],
    {
        proof {
            use_type_invariant(self);
        }
        let n = self.value.len();
        let mut value: Vec<T> = Vec::new();
        for i in 0..n
            invariant
                n == self.spec_len(),
                self.wf(),
                value@.len() == i,
                forall|j: int| 0 <= j < i ==> value@[j] == self.spec_values()[j].s_sub(num),
        {
            value.push(self.value[i].sub(num));
        }
        let error = vec_copy(&self.error);
        Measure { value, error, style: Style::PM }
    }

    /// Scales every value by a plain number; errors scale by its magnitude.
    pub fn mul_num(&self, num: T) -> (r: Measure<T>)
        ensures
            r.spec_len() == self.spec_len(),
            r.spec_style() == Style::PM,
            forall|i: int|
                0 <= i < self.spec_len() ==> r.spec_values()[i] == self.spec_values()[i].s_mul(num),
            forall|i: int|
                0 <= i < self.spec_len() ==> r.spec_errors()[i] == self.spec_errors()[i].s_mul(
                    num.s_abs(),
                ),
    {
        proof {
            use_type_invariant(self);
        }
        let n = self.value.len();
        let mut value: Vec<T> = Vec::new();
        let mut error: Vec<T> = Vec::new();
        for i in 0..n
            invariant
                n == self.spec_len(),
                self.wf(),
                value@.len() == i,
                error@.len() == i,
                forall|j: int| 0 <= j < i ==> value@[j] == self.spec_values()[j].s_mul(num),
                forall|j: int|
                    0 <= j < i ==> error@[j] == self.spec_errors()[j].s_mul(num.s_abs()),
        {
            value.push(self.value[i].mul(num));
            error.push(self.error[i].mul(num.abs()));
        }
        Measure { value, error, style: Style::PM }
    }

    /// Divides every value by a plain number; errors divide by its magnitude.
    pub fn div_num(&self, num: T) -> (r: Measure<T>)
        ensures
            r.spec_len() == self.spec_len(),
            r.spec_style() == Style::PM,
            forall|i: int|
                0 <= i < self.spec_len() ==> r.spec_values()[i] == self.spec_values()[i].s_div(num),
            forall|i: int|
                0 <= i < self.spec_len() ==> r.spec_errors()[i] == self.spec_errors()[i].s_div(
                    num.s_abs(),
                ),
    {
        proof {
            use_type_invariant(self);
        }
        let n = self.value.len();
        let mut value: Vec<T> = Vec::new();
        let mut error: Vec<T> = Vec::new();
        for i in 0..n
            invariant
                n == self.spec_len(),
                self.wf(),
                value@.len() == i,
                error@.len() == i,
                forall|j: int| 0 <= j < i ==> value@[j] == self.spec_values()[j].s_div(num),
                forall|j: int|
                    0 <= j < i ==> error@[j] == self.spec_errors()[j].s_div(num.s_abs()),
        {
            value.push(self.value[i].div(num));
            error.push(self.error[i].div(num.abs()));
        }
        Measure { value, error, style: Style::PM }
    }

    /// Divides a plain number by every value, with derivative-based
    /// propagation `|num| * e / v^2`.
    pub fn num_div(&self, num: T) -> (r: Measure<T>)
        ensures
            r.spec_len() == self.spec_len(),
            r.spec_style() == Style::PM,
            forall|i: int|
                0 <= i < self.spec_len() ==> r.spec_values()[i] == num.s_div(self.spec_values()[i]),
            forall|i: int|
                0 <= i < self.spec_len() ==> r.spec_errors()[i] == num.s_abs().s_mul(
                    self.spec_errors()[i],
                ).s_div(self.spec_values()[i].s_powi(2)),
    {
        proof {
            use_type_invariant(self);
        }
        let n = self.value.len();
        let mut value: Vec<T> = Vec::new();
        let mut error: Vec<T> = Vec::new();
        for i in 0..n
            invariant
                n == self.spec_len(),
                self.wf(),
                value@.len() == i,
                error@.len() == i,
                forall|j: int| 0 <= j < i ==> value@[j] == num.s_div(self.spec_values()[j]),
                forall|j: int|
                    0 <= j < i ==> error@[j] == num.s_abs().s_mul(self.spec_errors()[j]).s_div(
                        self.spec_values()[j].s_powi(2),
                    ),
        {
            value.push(num.div(self.value[i]));
            error.push(num.abs().mul(self.error[i]).div(self.value[i].powi(2)));
        }
        Measure { value, error, style: Style::PM }
    }
}

/// The propagated error of `mul` at an index. A broadcast single left
/// operand writes its second contribution with the single value last; the
/// other shapes write it first.
pub open spec fn spec_mul_err<T: Scalar>(a: Measure<T>, b: Measure<T>, i: int) -> T {
    let t1 = b.bval(i).s_mul(a.berr(i)).s_powi(2);
    let t2 = if a.spec_len() == 1 {
        b.berr(i).s_mul(a.bval(i)).s_powi(2)
    } else {
        a.bval(i).s_mul(b.berr(i)).s_powi(2)
    };
    t1.s_add(t2).s_sqrt()
}

/// The propagated error of `div` on one broadcast pair, by the standard
/// first-order quotient propagation:
/// `sqrt((se / ov)^2 + (sv * oe / ov^2)^2)`.
pub open spec fn spec_div_err<T: Scalar>(sv: T, se: T, ov: T, oe: T) -> T {
    se.s_div(ov).s_powi(2).s_add(sv.s_mul(oe).s_div(ov.s_powi(2)).s_powi(2)).s_sqrt()
}

/// Law: an error vector of length one broadcasts to the value count, every
/// entry the original scalar.
pub proof fn lemma_single_error_broadcast<T: Scalar>(value: Seq<T>, error: Seq<T>)
    requires
        error.len() == 1,
    ensures
        spec_bcast(value, error).len() == value.len(),
        forall|i: int| 0 <= i < value.len() ==> spec_bcast(value, error)[i] == error[0],
{
}

/// Law: for nonempty value and error vectors, the constructor's refusal
/// condition is exactly "strictly between one and the value count, or beyond
/// it". An empty error vector is also refused against nonempty values, and a
/// single error broadcasts even to no values at all; both fall outside this
/// shape.
pub proof fn lemma_invalid_error_len_iff(value_len: nat, error_len: nat)
    requires
        value_len >= 1,
        error_len >= 1,
    ensures
        (value_len != error_len && error_len != 1) <==> (1 < error_len < value_len || error_len
            > value_len),
{
}

/// Law: the error `add` assigns at each index is the quadrature sum of the
/// operands' errors there.
pub proof fn lemma_addition_quadrature<T: Scalar>(a: Measure<T>, b: Measure<T>, i: int)
    requires
        a.wf(),
        b.wf(),
        a.spec_len() == b.spec_len(),
        0 <= i < a.spec_len(),
    ensures
        spec_quad(a.berr(i), b.berr(i)) == a.spec_errors()[i].s_powi(2).s_add(
            b.spec_errors()[i].s_powi(2),
        ).s_sqrt(),
{
}

/// Law: a measure of length one added to a measure of length `n` yields
/// length `n`, and the error `add` assigns at each index combines the single
/// error with that index's error in quadrature.
pub proof fn lemma_broadcast_add<T: Scalar>(a: Measure<T>, b: Measure<T>, i: int)
    requires
        a.wf(),
        b.wf(),
        a.spec_len() == 1,
        0 <= i < b.spec_len(),
    ensures
        spec_blen(a, b) == b.spec_len(),
        spec_quad(a.berr(i), b.berr(i)) == a.spec_errors()[0].s_powi(2).s_add(
            b.spec_errors()[i].s_powi(2),
        ).s_sqrt(),
{
}

/// The length two broadcast-compatible operands produce: a single pair
/// broadcasts against the other operand's length.
pub open spec fn spec_blen<T: Scalar>(a: Measure<T>, b: Measure<T>) -> nat {
    if a.spec_len() == 1 {
        b.spec_len()
    } else {
        a.spec_len()
    }
}

/// The propagated error of `pow`: `|p * v^(p-1) * e|`.
pub open spec fn spec_pow_err<T: Scalar>(v: T, e: T, p: T) -> T {
    p.s_mul(v.s_powf(p.s_sub(T::s_one()))).s_mul(e).s_abs()
}

/// The propagated error of `sin`: the analytic `|cos(v) * e|`, or a literal
/// secant difference where the sine reaches an extremum.
pub open spec fn spec_sin_err<T: Scalar>(v: T, e: T) -> T {
    if v.s_sin().s_eq(T::s_one()) || v.s_sin().s_eq(T::s_zero().s_sub(T::s_one())) {
        v.s_add(e).s_sin().s_sub(v.s_sin()).s_abs()
    } else {
        v.s_cos().s_mul(e).s_abs()
    }
}

/// The propagated error of `cos`: the analytic `|sin(v) * e|`, or a literal
/// secant difference where the cosine reaches an extremum.
pub open spec fn spec_cos_err<T: Scalar>(v: T, e: T) -> T {
    if v.s_cos().s_eq(T::s_one()) || v.s_cos().s_eq(T::s_zero().s_sub(T::s_one())) {
        v.s_add(e).s_cos().s_sub(v.s_cos()).s_abs()
    } else {
        v.s_sin().s_mul(e).s_abs()
    }
}

/// The propagated error of `asin`: the analytic `e / sqrt(1 - v^2)`, or the
/// literal secant difference `|asin(v + e) - asin(v)|` at the domain
/// boundary, where the analytic derivative is undefined.
pub open spec fn spec_asin_err<T: Scalar>(v: T, e: T) -> T {
    if !v.s_eq(T::s_one()) && !v.s_eq(T::s_zero().s_sub(T::s_one())) {
        e.s_div(T::s_one().s_sub(v.s_powi(2)).s_sqrt())
    } else {
        v.s_add(e).s_asin().s_sub(v.s_asin()).s_abs()
    }
}

/// The propagated error of `acos`: the analytic `e / sqrt(1 - v^2)`, or a
/// difference taken toward zero at the domain boundary.
pub open spec fn spec_acos_err<T: Scalar>(v: T, e: T) -> T {
    if !v.s_eq(T::s_one()) && !v.s_eq(T::s_zero().s_sub(T::s_one())) {
        e.s_div(T::s_one().s_sub(v.s_powi(2)).s_sqrt())
    } else {
        let d = if v.s_gt(T::s_zero()) {
            v.s_sub(e)
        } else {
            v.s_add(e)
        };
        d.s_acos().s_sub(v.s_acos()).s_abs()
    }
}

/// The propagated error of `atan2`, by the standard derivative propagation:
/// `sqrt((ov * se)^2 + (sv * oe)^2) / (sv^2 + ov^2)`.
pub open spec fn spec_atan2_err<T: Scalar>(sv: T, se: T, ov: T, oe: T) -> T {
    ov.s_mul(se).s_powi(2).s_add(sv.s_mul(oe).s_powi(2)).s_sqrt().s_div(
        sv.s_powi(2).s_add(ov.s_powi(2)),
    )
}

/// The left-to-right sum of a sequence, started at zero.
pub open spec fn spec_sum<T: Scalar>(s: Seq<T>) -> T
    decreases s.len(),
{
    if s.len() == 0 {
        T::s_zero()
    } else {
        spec_sum(s.drop_last()).s_add(s.last())
    }
}

/// The quadrature combination of two error contributions.
pub open spec fn spec_quad<T: Scalar>(a: T, b: T) -> T {
    a.s_powi(2).s_add(b.s_powi(2)).s_sqrt()
}

/// A measure of a single pair, as the fitting code assembles results.
pub(crate) fn single<T: Scalar>(value: T, error: T) -> (r: Measure<T>)
    ensures
        r.spec_len() == 1,
        r.spec_errors().len() == 1,
        r.spec_values()[0] == value,
        r.spec_errors()[0] == error,
        r.spec_style() == Style::PM,
{
    Measure { value: vec_of(1, value), error: vec_of(1, error), style: Style::PM }
}

/// Sums a vector of scalars left to right, starting at zero.
pub(crate) fn sum<T: Scalar>(v: &Vec<T>) -> (r: T)
    ensures
        r == spec_sum(v@),
{
    let mut acc = T::zero();
    let n = v.len();
    for i in 0..n
        invariant
            n == v@.len(),
            acc == spec_sum(v@.subrange(0, i as int)),
    {
        proof {
            assert(v@.subrange(0, i + 1 as int).drop_last() =~= v@.subrange(0, i as int));
            assert(v@.subrange(0, i + 1 as int).last() == v@[i as int]);
        }
        acc = acc.add(v[i]);
    }
    proof {
        assert(v@.subrange(0, n as int) =~= v@);
    }
    acc
}

} // verus!
