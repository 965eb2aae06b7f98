//! SEC-EDGAR recent filings: the three parallel arrays of the submissions
//! payload zipped into filings, and the Form 4 (insider transaction) count
//! that feeds the insider signal.
use vstd::prelude::*;

verus! {

/// A single filing.
#[derive(Debug, Clone, PartialEq)]
pub struct Filing {
    pub form: String,
    pub date: String,
    pub accession: String,
}

/// Zip the recent-filings arrays by index, truncated to the shortest.
pub fn zip_recent_filings(accession_number: &Vec<String>, form: &Vec<String>, filing_date: &Vec<String>) -> (r: Vec<Filing>)
    ensures
        r@.len() == vstd::math::min(
            vstd::math::min(form@.len() as int, filing_date@.len() as int),
            accession_number@.len() as int,
        ),
        forall|i: int|
            0 <= i < r@.len() ==> #[trigger] r@[i] == (Filing {
                form: form@[i],
                date: filing_date@[i],
                accession: accession_number@[i],
            }),
{
    let mut n = form.len();
    if filing_date.len() < n {
        n = filing_date.len();
    }
    if accession_number.len() < n {
        n = accession_number.len();
    }
    let mut out: Vec<Filing> = Vec::new();
    let mut i: usize = 0;
    while i < n
        invariant
            i <= n,
            n <= form@.len(),
            n <= filing_date@.len(),
            n <= accession_number@.len(),
            out@.len() == i,
            forall|j: int|
                0 <= j < i ==> #[trigger] out@[j] == (Filing {
                    form: form@[j],
                    date: filing_date@[j],
                    accession: accession_number@[j],
                }),
        decreases n - i,
    {
        let f = Filing {
            form: form[i].clone(),
            date: filing_date[i].clone(),
            accession: accession_number[i].clone(),
        };
        out.push(f);
        i = i + 1;
    }
    out
}

/// The number of Form 4 filings in `s`.
pub open spec fn form4_count(s: Seq<Filing>) -> nat
    decreases s.len(),
{
    if s.len() == 0 {
        0
    } else {
        form4_count(s.drop_last()) + if s.last().form@ == seq!['4'] {
            1nat
        } else {
            0nat
        }
    }
}

/// Whether a form name is exactly `4`.
fn is_form4(form: &String) -> (b: bool)
    ensures
        b == (form@ == seq!['4']),
{
    let v = crate::text::string_chars(form);
    if v.len() != 1 {
        return false;
    }
    let b = v[0] == '4';
    if b {
        assert(v@ =~= seq!['4']);
    }
    b
}

/// Count Form 4 (insider transaction) filings — the bullishness proxy.
pub fn count_form4(filings: &[Filing]) -> (n: usize)
    ensures
        n == form4_count(filings@),
{
    let mut n: usize = 0;
    let mut i: usize = 0;
    while i < filings.len()
        invariant
            i <= filings@.len(),
            n == form4_count(filings@.take(i as int)),
            n <= i,
        decreases filings@.len() - i,
    {
        proof {
            assert(filings@.take(i + 1).drop_last() =~= filings@.take(i as int));
        }
        if is_form4(&filings[i].form) {
            n = n + 1;
        }
        i = i + 1;
    }
    assert(filings@.take(filings@.len() as int) =~= filings@);
    n
}

} // verus!
