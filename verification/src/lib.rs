//! Retrieval of German dictionary entries from Duden.de as structured data:
//! the canonical headword, its senses (Bedeutungen), and the example
//! sentences (Beispiele) that accompany each sense.

use vstd::prelude::*;
use vstd::string::StringExecFns;

pub mod dom;
pub mod extract;
pub mod html;
pub mod laws;
pub mod resolve;
pub mod text;

verus! {

/// A single Bedeutung (sense) of a Wort: a gloss together with the example
/// sentences that illustrate it.
#[derive(Debug)]
pub struct Bedeutung {
    pub bedeutung: String,
    pub beispiele: Vec<String>,
}

/// A dictionary entry: the canonical headword together with its senses.
#[derive(Debug)]
pub struct Wort {
    pub wort: String,
    pub bedeutungen: Vec<Bedeutung>,
}

/// Mathematical model of a [`Bedeutung`].
pub ghost struct BedeutungModel {
    pub bedeutung: Seq<char>,
    pub beispiele: Seq<Seq<char>>,
}

/// Mathematical model of a [`Wort`].
pub ghost struct WortModel {
    pub wort: Seq<char>,
    pub bedeutungen: Seq<BedeutungModel>,
}

impl View for Bedeutung {
    type V = BedeutungModel;

    open spec fn view(&self) -> BedeutungModel {
        BedeutungModel {
            bedeutung: self.bedeutung@,
            beispiele: self.beispiele@.map_values(|s: String| s@),
        }
    }
}

impl View for Wort {
    type V = WortModel;

    open spec fn view(&self) -> WortModel {
        WortModel {
            wort: self.wort@,
            bedeutungen: self.bedeutungen@.map_values(|b: Bedeutung| b@),
        }
    }
}

/// The rendered example lines of one sense: eight spaces of indent and a
/// newline around each example, read over the first `k` examples.
pub open spec fn render_beispiele_upto(l: Seq<Seq<char>>, k: int) -> Seq<char>
    decreases k,
{
    if k <= 0 {
        Seq::empty()
    } else {
        render_beispiele_upto(l, k - 1) + "        "@ + l[k - 1] + "\n"@
    }
}

/// The rendered block of one sense: the indented gloss, the example header,
/// the example lines, and a blank line.
pub open spec fn render_bedeutung(b: BedeutungModel) -> Seq<char> {
    "    "@ + b.bedeutung + "\n    Beispiel(e):\n"@ + render_beispiele_upto(
        b.beispiele,
        b.beispiele.len() as int,
    ) + "\n"@
}

pub open spec fn render_bedeutungen_upto(l: Seq<BedeutungModel>, k: int) -> Seq<char>
    decreases k,
{
    if k <= 0 {
        Seq::empty()
    } else {
        render_bedeutungen_upto(l, k - 1) + render_bedeutung(l[k - 1])
    }
}

/// The stable, line-oriented rendering of a record: the headword line, the
/// senses header, and one block per sense.
pub open spec fn render_wort(w: WortModel) -> Seq<char> {
    "Wort: "@ + w.wort + "\nBedeutung(en):\n"@ + render_bedeutungen_upto(
        w.bedeutungen,
        w.bedeutungen.len() as int,
    )
}

impl Wort {
    /// Renders the record for display, line by line.
    #[verifier::loop_isolation(false)]
    pub fn render(&self) -> (r: String)
        ensures
            r@ == render_wort(self@),
    {
        let mut r = "Wort: ".to_owned();
        r.append(self.wort.as_str());
        r.append("\nBedeutung(en):\n");
        let ghost prefix = "Wort: "@ + self@.wort + "\nBedeutung(en):\n"@;
        proof {
            assert(r@ =~= prefix + render_bedeutungen_upto(self@.bedeutungen, 0));
        }
        let mut i: usize = 0;
        while i < self.bedeutungen.len()
            invariant
                i <= self@.bedeutungen.len(),
                r@ == prefix + render_bedeutungen_upto(self@.bedeutungen, i as int),
            decreases self@.bedeutungen.len() - i,
        {
            let b = &self.bedeutungen[i];
            proof {
                assert(self@.bedeutungen[i as int] == self.bedeutungen@[i as int]@);
            }
            let ghost before = r@;
            r.append("    ");
            r.append(b.bedeutung.as_str());
            r.append("\n    Beispiel(e):\n");
            let ghost mid = before + "    "@ + b@.bedeutung + "\n    Beispiel(e):\n"@;
            proof {
                assert(r@ =~= mid + render_beispiele_upto(b@.beispiele, 0));
            }
            let mut j: usize = 0;
            while j < b.beispiele.len()
                invariant
                    j <= b@.beispiele.len(),
                    r@ == mid + render_beispiele_upto(b@.beispiele, j as int),
                decreases b@.beispiele.len() - j,
            {
                proof {
                    assert(b@.beispiele[j as int] == b.beispiele@[j as int]@);
                }
                r.append("        ");
                r.append(b.beispiele[j].as_str());
                r.append("\n");
                proof {
                    assert(r@ =~= mid + render_beispiele_upto(b@.beispiele, j + 1 as int));
                }
                j += 1;
            }
            r.append("\n");
            proof {
                assert(r@ =~= before + render_bedeutung(b@));
                assert(r@ =~= prefix + render_bedeutungen_upto(self@.bedeutungen, i + 1 as int));
            }
            i += 1;
        }
        r
    }
}

} // verus!
