use crate::erratum::Erratum;
use crate::neuronatus::{instructio_rel, praedictio_rel, Neuronatus, Status};
use crate::numerus::Numerus;
use crate::tensor::Tensor1D;
use vstd::prelude::*;

verus! {

/// No two entries carry the same name.
spec fn nomina_distincta<T>(paria: Seq<(String, Neuronatus<T>)>) -> bool {
    forall|i: int, j: int|
        0 <= i < paria.len() && 0 <= j < paria.len() && i != j ==> (#[trigger] paria[i]).0@
            != (#[trigger] paria[j]).0@
}

/// Entry `i` carries the name `nomen`.
spec fn locus_nominis<T>(paria: Seq<(String, Neuronatus<T>)>, nomen: Seq<char>, i: int) -> bool {
    0 <= i < paria.len() && paria[i].0@ == nomen
}

/// The networks of the entries, each under its name.
spec fn tabula<T>(paria: Seq<(String, Neuronatus<T>)>) -> Map<Seq<char>, Status<T>> {
    Map::new(
        |nomen: Seq<char>| exists|i: int| locus_nominis(paria, nomen, i),
        |nomen: Seq<char>| paria[choose|i: int| locus_nominis(paria, nomen, i)].1@,
    )
}

/// The entry that carries a name is the one the table shows under it.
proof fn lemma_locus<T>(paria: Seq<(String, Neuronatus<T>)>, nomen: Seq<char>, i: int)
    requires
        nomina_distincta(paria),
        locus_nominis(paria, nomen, i),
    ensures
        tabula(paria).dom().contains(nomen),
        tabula(paria)[nomen] == paria[i].1@,
{
    let k = choose|k: int| locus_nominis(paria, nomen, k);
    assert(k == i);
}

/// Entries that keep their names, and all but entry `i` their networks, show
/// the table they showed before with the network of entry `i` put in.
proof fn lemma_tabula_mutata<T>(
    prius: Seq<(String, Neuronatus<T>)>,
    nunc: Seq<(String, Neuronatus<T>)>,
    i: int,
)
    requires
        nomina_distincta(prius),
        0 <= i < prius.len(),
        nunc.len() == prius.len(),
        forall|k: int| 0 <= k < prius.len() ==> (#[trigger] nunc[k]).0@ == prius[k].0@,
        forall|k: int| 0 <= k < prius.len() && k != i ==> (#[trigger] nunc[k]).1@ == prius[k].1@,
    ensures
        nomina_distincta(nunc),
        tabula(nunc) == tabula(prius).insert(prius[i].0@, nunc[i].1@),
{
    assert forall|n: Seq<char>, k: int| locus_nominis(nunc, n, k) <==> locus_nominis(
        prius,
        n,
        k,
    ) by {}
    assert forall|n: Seq<char>| #[trigger] tabula(nunc).dom().contains(n) implies tabula(nunc)[n]
        == tabula(prius).insert(prius[i].0@, nunc[i].1@)[n] by {
        let k = choose|k: int| locus_nominis(nunc, n, k);
        lemma_locus(nunc, n, k);
        lemma_locus(prius, n, k);
    }
    assert(locus_nominis(nunc, prius[i].0@, i));
    assert(tabula(nunc) =~= tabula(prius).insert(prius[i].0@, nunc[i].1@));
}

/// Entries with one more entry under a new name show the table they showed
/// before with the new network put in.
proof fn lemma_tabula_aucta<T>(prius: Seq<(String, Neuronatus<T>)>, par: (String, Neuronatus<T>))
    requires
        nomina_distincta(prius),
        !tabula(prius).dom().contains(par.0@),
    ensures
        nomina_distincta(prius.push(par)),
        tabula(prius.push(par)) == tabula(prius).insert(par.0@, par.1@),
{
    let nunc = prius.push(par);
    let ultimus = prius.len() as int;
    assert forall|i: int, j: int|
        0 <= i < nunc.len() && 0 <= j < nunc.len() && i != j implies (#[trigger] nunc[i]).0@ != (
    #[trigger] nunc[j]).0@ by {
        if i < ultimus && j < ultimus {
            assert(nunc[i] == prius[i] && nunc[j] == prius[j]);
        } else if i < ultimus {
            assert(!locus_nominis(prius, par.0@, i));
        } else {
            assert(!locus_nominis(prius, par.0@, j));
        }
    }
    assert(locus_nominis(nunc, par.0@, ultimus));
    assert forall|n: Seq<char>, k: int| locus_nominis(prius, n, k) implies locus_nominis(
        nunc,
        n,
        k,
    ) by {}
    assert forall|n: Seq<char>| #[trigger] tabula(nunc).dom().contains(n) implies tabula(
        prius,
    ).insert(par.0@, par.1@).dom().contains(n) && tabula(nunc)[n] == tabula(prius).insert(
        par.0@,
        par.1@,
    )[n] by {
        let k = choose|k: int| locus_nominis(nunc, n, k);
        lemma_locus(nunc, n, k);
        if k < ultimus {
            assert(locus_nominis(prius, n, k));
            lemma_locus(prius, n, k);
        }
    }
    assert(tabula(nunc) =~= tabula(prius).insert(par.0@, par.1@));
}

/// A table shows as many networks as there are entries.
proof fn lemma_numerus_nominum<T>(paria: Seq<(String, Neuronatus<T>)>)
    requires
        nomina_distincta(paria),
    ensures
        tabula(paria).dom().finite(),
        tabula(paria).dom().len() == paria.len(),
    decreases paria.len(),
{
    if paria.len() == 0 {
        assert(tabula(paria).dom() =~= Set::<Seq<char>>::empty());
    } else {
        let priora = paria.drop_last();
        assert forall|i: int, j: int|
            0 <= i < priora.len() && 0 <= j < priora.len() && i != j implies (
        #[trigger] priora[i]).0@ != (#[trigger] priora[j]).0@ by {
            assert(priora[i] == paria[i] && priora[j] == paria[j]);
        }
        lemma_numerus_nominum(priora);
        assert(!tabula(priora).dom().contains(paria.last().0@)) by {
            if tabula(priora).dom().contains(paria.last().0@) {
                let k = choose|k: int| locus_nominis(priora, paria.last().0@, k);
                assert(paria[k].0@ == paria[paria.len() - 1].0@);
            }
        }
        assert(priora.push(paria.last()) =~= paria);
        lemma_tabula_aucta(priora, paria.last());
    }
}

/// A registry of networks, each under a name of its own.
pub struct MagisterNervorum<T> {
    /// The networks with their names, in the order in which the names came.
    retia: Vec<(String, Neuronatus<T>)>,
}

impl<T> View for MagisterNervorum<T> {
    type V = Map<Seq<char>, Status<T>>;

    closed spec fn view(&self) -> Map<Seq<char>, Status<T>> {
        tabula(self.retia@)
    }
}

impl<T> MagisterNervorum<T> {
    /// No name occurs twice.
    #[verifier::type_invariant]
    spec fn bene_formatus(&self) -> bool {
        nomina_distincta(self.retia@)
    }
}

impl<T: Numerus> MagisterNervorum<T> {
    /// The registry that holds no network.
    pub fn novus() -> (r: Self)
        ensures
            r@ == Map::<Seq<char>, Status<T>>::empty(),
    {
        let r = MagisterNervorum { retia: Vec::new() };
        assert(r@ =~= Map::<Seq<char>, Status<T>>::empty());
        r
    }

    /// The place of the entry under `nomen`, where there is one.
    fn locus(&self, nomen: &str) -> (r: Option<usize>)
        ensures
            r is Some <==> self@.dom().contains(nomen@),
            r is Some ==> locus_nominis(self.retia@, nomen@, r->Some_0 as int) && self@[nomen@]
                == self.retia@[r->Some_0 as int].1@,
    {
        proof {
            use_type_invariant(self);
        }
        let quaesitum = nomen.to_owned();
        let mut i: usize = 0;
        while i < self.retia.len()
            invariant
                quaesitum@ == nomen@,
                nomina_distincta(self.retia@),
                i <= self.retia@.len(),
                forall|k: int| 0 <= k < i ==> !locus_nominis(self.retia@, nomen@, k),
            decreases self.retia@.len() - i,
        {
            if self.retia[i].0 == quaesitum {
                proof {
                    lemma_locus(self.retia@, nomen@, i as int);
                }
                return Some(i);
            }
            i += 1;
        }
        None
    }

    /// Puts `rete` under `nomen`, in place of the network that was there, if
    /// there was one.
    pub fn adde(&mut self, nomen: &str, rete: Neuronatus<T>)
        ensures
            final(self)@ == old(self)@.insert(nomen@, rete@),
    {
        proof {
            use_type_invariant(&*self);
        }
        let ghost prius = self.retia@;
        let locus = self.locus(nomen);
        let mut retia: Vec<(String, Neuronatus<T>)> = Vec::new();
        core::mem::swap(&mut self.retia, &mut retia);
        match locus {
            Some(i) => {
                retia.set(i, (nomen.to_owned(), rete));
                proof {
                    lemma_tabula_mutata(prius, retia@, i as int);
                }
            },
            None => {
                retia.push((nomen.to_owned(), rete));
                proof {
                    lemma_tabula_aucta(prius, retia@.last());
                }
            },
        }
        core::mem::swap(&mut self.retia, &mut retia);
    }

    /// The network under `nomen`, where there is one.
    pub fn rete(&self, nomen: &str) -> (r: Option<&Neuronatus<T>>)
        ensures
            r is Some <==> self@.dom().contains(nomen@),
            r is Some ==> r->Some_0@ == self@[nomen@],
    {
        match self.locus(nomen) {
            Some(i) => Some(&self.retia[i].1),
            None => None,
        }
    }

    /// The output of the network under `nomen` on `inputum`, where there is
    /// such a network.
    pub fn praedictio(&self, nomen: &str, inputum: &Tensor1D<T>) -> (r: Option<
        Result<Tensor1D<T>, Erratum>,
    >)
        ensures
            r is Some <==> self@.dom().contains(nomen@),
            r is Some ==> {
                let rete = self@[nomen@];
                let exitus = r->Some_0;
                &&& exitus is Ok <==> inputum@.len() == rete.input
                &&& exitus is Err ==> exitus == Err::<Tensor1D<T>, Erratum>(Erratum::ShapeError)
                &&& exitus is Ok ==> praedictio_rel(rete, inputum@, exitus->Ok_0@)
            },
    {
        match self.locus(nomen) {
            Some(i) => Some(self.retia[i].1.praedictio(inputum)),
            None => None,
        }
    }

    /// One training step of the network under `nomen`, where there is such a
    /// network: `Ok(true)` after the step, `Ok(false)` where there is none.
    /// Where the step is refused, nothing changes.
    pub fn instruere(
        &mut self,
        nomen: &str,
        inputum: &Tensor1D<T>,
        exspectatum: &Tensor1D<T>,
    ) -> (r: Result<bool, Erratum>)
        ensures
            r == Ok::<bool, Erratum>(false) <==> !old(self)@.dom().contains(nomen@),
            r is Err <==> old(self)@.dom().contains(nomen@) && !(inputum@.len() == old(
                self,
            )@[nomen@].input && exspectatum@.len() == old(self)@[nomen@].output),
            r is Err ==> r == Err::<bool, Erratum>(Erratum::ShapeError),
            !(r == Ok::<bool, Erratum>(true)) ==> final(self)@ == old(self)@,
            r == Ok::<bool, Erratum>(true) ==> final(self)@.dom().contains(nomen@) && final(self)@
                == old(self)@.insert(nomen@, final(self)@[nomen@]) && instructio_rel(
                old(self)@[nomen@],
                inputum@,
                exspectatum@,
                final(self)@[nomen@],
            ),
    {
        proof {
            use_type_invariant(&*self);
        }
        let ghost prius = self.retia@;
        match self.locus(nomen) {
            Some(i) => {
                let mut retia: Vec<(String, Neuronatus<T>)> = Vec::new();
                core::mem::swap(&mut self.retia, &mut retia);
                let exitus = retia[i].1.instruere(inputum, exspectatum);
                proof {
                    lemma_tabula_mutata(prius, retia@, i as int);
                    lemma_locus(retia@, nomen@, i as int);
                    assert(tabula(prius).insert(nomen@, prius[i as int].1@) =~= tabula(prius));
                }
                core::mem::swap(&mut self.retia, &mut retia);
                match exitus {
                    Ok(()) => Ok(true),
                    Err(e) => Err(e),
                }
            },
            None => Ok(false),
        }
    }

    /// The names under which the registry holds a network, each once.
    pub fn nomina(&self) -> (r: Vec<String>)
        ensures
            self@.dom().finite(),
            r@.len() == self@.dom().len(),
            forall|n: Seq<char>|
                self@.dom().contains(n) <==> exists|i: int|
                    0 <= i < r@.len() && (#[trigger] r@[i])@ == n,
            forall|i: int, j: int|
                0 <= i < r@.len() && 0 <= j < r@.len() && i != j ==> (#[trigger] r@[i])@
                    != (#[trigger] r@[j])@,
    {
        proof {
            use_type_invariant(self);
        }
        let mut r: Vec<String> = Vec::new();
        let mut i: usize = 0;
        while i < self.retia.len()
            invariant
                i <= self.retia@.len(),
                r@.len() == i,
                forall|k: int| 0 <= k < i ==> (#[trigger] r@[k])@ == self.retia@[k].0@,
            decreases self.retia@.len() - i,
        {
            r.push(self.retia[i].0.clone());
            i += 1;
        }
        proof {
            assert forall|n: Seq<char>| self@.dom().contains(n) implies exists|i: int|
                0 <= i < r@.len() && (#[trigger] r@[i])@ == n by {
                let k = choose|k: int| locus_nominis(self.retia@, n, k);
                assert(r@[k]@ == n);
            }
            assert forall|n: Seq<char>|
                (exists|i: int| 0 <= i < r@.len() && (#[trigger] r@[i])@ == n)
                    implies self@.dom().contains(n) by {
                let k = choose|k: int| 0 <= k < r@.len() && (#[trigger] r@[k])@ == n;
                assert(locus_nominis(self.retia@, n, k));
            }
            lemma_numerus_nominum(self.retia@);
        }
        r
    }
}

} // verus!
