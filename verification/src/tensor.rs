use crate::alea::{est_fortuitum, fortuitum};
use crate::erratum::Erratum;
use crate::numerus::{
    arithmetica_certa, est_differentia, est_nullum, est_productum, est_summa, est_unum,
    lex_summa_productorum_certa, summa_productorum, Numerus,
};
use rand::distributions::{Distribution, Standard};
use vstd::prelude::*;

verus! {

/// Every element of `r` is a value of the neutral element.
pub open spec fn vector_nullus<T: Numerus>(r: Seq<T>) -> bool {
    forall|i: int| 0 <= i < r.len() ==> est_nullum(#[trigger] r[i])
}

/// Every element of `r` is a value that one random draw gave.
pub open spec fn vector_fortuitus<T>(r: Seq<T>) -> bool where Standard: Distribution<T> {
    forall|i: int| 0 <= i < r.len() ==> est_fortuitum(#[trigger] r[i])
}

/// `r` is an elementwise sum of `a` and `b`.
pub open spec fn summa_vectorum<T: Numerus>(a: Seq<T>, b: Seq<T>, r: Seq<T>) -> bool {
    &&& a.len() == b.len()
    &&& r.len() == a.len()
    &&& forall|i: int| 0 <= i < r.len() ==> est_summa(a[i], b[i], #[trigger] r[i])
}

/// `r` is an elementwise difference of `a` and `b`.
pub open spec fn differentia_vectorum<T: Numerus>(a: Seq<T>, b: Seq<T>, r: Seq<T>) -> bool {
    &&& a.len() == b.len()
    &&& r.len() == a.len()
    &&& forall|i: int| 0 <= i < r.len() ==> est_differentia(a[i], b[i], #[trigger] r[i])
}

/// `r` is `a` with every element multiplied by `s`.
pub open spec fn vector_scalatus<T: Numerus>(a: Seq<T>, s: T, r: Seq<T>) -> bool {
    &&& r.len() == a.len()
    &&& forall|i: int| 0 <= i < r.len() ==> est_productum(a[i], s, #[trigger] r[i])
}

/// A copy of a sequence of scalars.
pub(crate) fn exemplar<T: Copy>(v: &Vec<T>) -> (r: Vec<T>)
    ensures
        r@ == v@,
{
    let mut r: Vec<T> = Vec::new();
    let mut i: usize = 0;
    while i < v.len()
        invariant
            i <= v@.len(),
            r@ == v@.take(i as int),
        decreases v@.len() - i,
    {
        r.push(v[i]);
        assert(r@ == v@.take(i + 1));
        i += 1;
    }
    assert(v@.take(v@.len() as int) == v@);
    r
}

/// A vector: a tensor of rank one.
#[derive(Debug, PartialEq)]
pub struct Tensor1D<T> {
    /// The elements.
    materia: Vec<T>,
    /// The number of elements.
    magnitudo: usize,
}

impl<T> View for Tensor1D<T> {
    type V = Seq<T>;

    closed spec fn view(&self) -> Seq<T> {
        self.materia@
    }
}

impl<T> Tensor1D<T> {
    /// The length on record is the number of elements.
    #[verifier::type_invariant]
    spec fn bene_formatus(&self) -> bool {
        self.magnitudo == self.materia@.len()
    }
}

impl<T: Copy> Clone for Tensor1D<T> {
    fn clone(&self) -> (r: Self)
        ensures
            r@ == self@,
    {
        proof {
            use_type_invariant(self);
        }
        Tensor1D { materia: exemplar(&self.materia), magnitudo: self.magnitudo }
    }
}

impl<T: Numerus> Tensor1D<T> {
    /// The vector that holds the given values.
    pub fn ex_vec(materia: Vec<T>) -> (r: Self)
        ensures
            r@ == materia@,
    {
        let magnitudo = materia.len();
        Tensor1D { materia, magnitudo }
    }

    /// The number of elements.
    pub fn magnitudo(&self) -> (r: usize)
        ensures
            r == self@.len(),
    {
        proof {
            use_type_invariant(self);
        }
        self.magnitudo
    }

    /// The elements, in order.
    pub fn materia(&self) -> (r: &Vec<T>)
        ensures
            r@ == self@,
    {
        &self.materia
    }

    /// The vector of `magnitudo` neutral elements.
    pub fn nullus(magnitudo: usize) -> (r: Self)
        ensures
            r@.len() == magnitudo,
            vector_nullus(r@),
    {
        let mut materia: Vec<T> = Vec::new();
        while materia.len() < magnitudo
            invariant
                materia@.len() <= magnitudo,
                vector_nullus(materia@),
            decreases magnitudo - materia@.len(),
        {
            materia.push(T::nullum());
        }
        Tensor1D { materia, magnitudo }
    }

    /// A vector of `magnitudo` independent random draws.
    pub fn fortuitus(magnitudo: usize) -> (r: Self) where Standard: Distribution<T>
        ensures
            r@.len() == magnitudo,
            vector_fortuitus(r@),
    {
        let mut materia: Vec<T> = Vec::new();
        while materia.len() < magnitudo
            invariant
                materia@.len() <= magnitudo,
                vector_fortuitus(materia@),
            decreases magnitudo - materia@.len(),
        {
            materia.push(fortuitum());
        }
        Tensor1D { materia, magnitudo }
    }

    /// The elementwise sum of two vectors of one length.
    pub fn adde(&self, alius: &Self) -> (r: Result<Self, Erratum>)
        ensures
            self@.len() != alius@.len() <==> r == Err::<Self, Erratum>(Erratum::ShapeError),
            self@.len() == alius@.len() <==> r is Ok,
            r is Ok ==> summa_vectorum(self@, alius@, r->Ok_0@),
    {
        proof {
            use_type_invariant(self);
            use_type_invariant(alius);
        }
        if self.magnitudo != alius.magnitudo {
            return Err(Erratum::ShapeError);
        }
        let mut materia: Vec<T> = Vec::new();
        let mut i: usize = 0;
        while i < self.magnitudo
            invariant
                self.magnitudo == self.materia@.len(),
                alius.magnitudo == alius.materia@.len(),
                self.magnitudo == alius.magnitudo,
                i <= self.magnitudo,
                materia@.len() == i,
                forall|k: int|
                    0 <= k < i ==> est_summa(self@[k], alius@[k], #[trigger] materia@[k]),
            decreases self.magnitudo - i,
        {
            materia.push(self.materia[i].summa(alius.materia[i]));
            i += 1;
        }
        Ok(Tensor1D { materia, magnitudo: self.magnitudo })
    }

    /// The elementwise difference of two vectors of one length.
    pub fn minue(&self, alius: &Self) -> (r: Result<Self, Erratum>)
        ensures
            self@.len() != alius@.len() <==> r == Err::<Self, Erratum>(Erratum::ShapeError),
            self@.len() == alius@.len() <==> r is Ok,
            r is Ok ==> differentia_vectorum(self@, alius@, r->Ok_0@),
    {
        proof {
            use_type_invariant(self);
            use_type_invariant(alius);
        }
        if self.magnitudo != alius.magnitudo {
            return Err(Erratum::ShapeError);
        }
        let mut materia: Vec<T> = Vec::new();
        let mut i: usize = 0;
        while i < self.magnitudo
            invariant
                self.magnitudo == self.materia@.len(),
                alius.magnitudo == alius.materia@.len(),
                self.magnitudo == alius.magnitudo,
                i <= self.magnitudo,
                materia@.len() == i,
                forall|k: int|
                    0 <= k < i ==> est_differentia(self@[k], alius@[k], #[trigger] materia@[k]),
            decreases self.magnitudo - i,
        {
            materia.push(self.materia[i].differentia(alius.materia[i]));
            i += 1;
        }
        Ok(Tensor1D { materia, magnitudo: self.magnitudo })
    }

    /// The vector with every element multiplied by `scala`.
    pub fn multiplica_per_scalar(&self, scala: T) -> (r: Self)
        ensures
            vector_scalatus(self@, scala, r@),
    {
        proof {
            use_type_invariant(self);
        }
        let mut materia: Vec<T> = Vec::new();
        let mut i: usize = 0;
        while i < self.magnitudo
            invariant
                self.magnitudo == self.materia@.len(),
                i <= self.magnitudo,
                materia@.len() == i,
                forall|k: int|
                    0 <= k < i ==> est_productum(self@[k], scala, #[trigger] materia@[k]),
            decreases self.magnitudo - i,
        {
            materia.push(self.materia[i].productum(scala));
            i += 1;
        }
        Tensor1D { materia, magnitudo: self.magnitudo }
    }

    /// The inner product of two vectors of one length.
    pub fn productum_scalaris(&self, alius: &Self) -> (r: Result<T, Erratum>)
        ensures
            self@.len() != alius@.len() <==> r == Err::<T, Erratum>(Erratum::ShapeError),
            self@.len() == alius@.len() <==> r is Ok,
            r is Ok ==> summa_productorum(self@, alius@, self@.len(), r->Ok_0),
    {
        proof {
            use_type_invariant(self);
            use_type_invariant(alius);
        }
        if self.magnitudo != alius.magnitudo {
            return Err(Erratum::ShapeError);
        }
        let mut acc = T::nullum();
        let mut i: usize = 0;
        while i < self.magnitudo
            invariant
                self.magnitudo == self.materia@.len(),
                alius.magnitudo == alius.materia@.len(),
                self.magnitudo == alius.magnitudo,
                i <= self.magnitudo,
                summa_productorum(self@, alius@, i as nat, acc),
            decreases self.magnitudo - i,
        {
            let m = self.materia[i].productum(alius.materia[i]);
            let proximus = acc.summa(m);
            assert(summa_productorum(self@, alius@, i as nat, acc) && est_productum(
                self@[i as int],
                alius@[i as int],
                m,
            ) && est_summa(acc, m, proximus));
            acc = proximus;
            i += 1;
        }
        Ok(acc)
    }
}

/// The rows of a nested vector, each taken as a sequence.
pub open spec fn figura<T>(m: Seq<Vec<T>>) -> Seq<Seq<T>> {
    Seq::new(m.len(), |i: int| m[i]@)
}

/// `m` has `ordines` rows of `columnae` elements each.
pub open spec fn rectangulum<T>(m: Seq<Seq<T>>, ordines: nat, columnae: nat) -> bool {
    &&& m.len() == ordines
    &&& forall|i: int| 0 <= i < m.len() ==> (#[trigger] m[i]).len() == columnae
}

/// Column `j` of a matrix, from the first row to the last.
pub open spec fn columna<T>(m: Seq<Seq<T>>, j: int) -> Seq<T> {
    Seq::new(m.len(), |k: int| m[k][j])
}

/// Every element of `r` is a value of the neutral element.
pub open spec fn matrix_nulla<T: Numerus>(r: Seq<Seq<T>>) -> bool {
    forall|i: int| 0 <= i < r.len() ==> vector_nullus(#[trigger] r[i])
}

/// Every element of `r` is a value that one random draw gave.
pub open spec fn matrix_fortuita<T>(r: Seq<Seq<T>>) -> bool where Standard: Distribution<T> {
    forall|i: int| 0 <= i < r.len() ==> vector_fortuitus(#[trigger] r[i])
}

/// `r` is an elementwise sum of `a` and `b`.
pub open spec fn summa_matricum<T: Numerus>(
    a: Seq<Seq<T>>,
    b: Seq<Seq<T>>,
    r: Seq<Seq<T>>,
) -> bool {
    &&& a.len() == b.len()
    &&& r.len() == a.len()
    &&& forall|i: int| 0 <= i < r.len() ==> summa_vectorum(a[i], b[i], #[trigger] r[i])
}

/// `r` is `a` with every element multiplied by `s`.
pub open spec fn matrix_scalata<T: Numerus>(a: Seq<Seq<T>>, s: T, r: Seq<Seq<T>>) -> bool {
    &&& r.len() == a.len()
    &&& forall|i: int| 0 <= i < r.len() ==> vector_scalatus(a[i], s, #[trigger] r[i])
}

/// `r` is a matrix product of `a` and `b`, where `b` has `columnae` columns:
/// element `(i, j)` is a sum of the products of row `i` of `a` with column `j`
/// of `b`.
pub open spec fn productum_matricum<T: Numerus>(
    a: Seq<Seq<T>>,
    b: Seq<Seq<T>>,
    columnae: nat,
    r: Seq<Seq<T>>,
) -> bool {
    &&& rectangulum(r, a.len(), columnae)
    &&& forall|i: int, j: int|
        0 <= i < a.len() && 0 <= j < columnae ==> summa_productorum(
            a[i],
            columna(b, j),
            b.len(),
            #[trigger] r[i][j],
        )
}

/// The column matrix that holds the elements of `v`, one to a row.
pub open spec fn columna_ex_vectore<T>(v: Seq<T>) -> Seq<Seq<T>> {
    Seq::new(v.len(), |i: int| seq![v[i]])
}

/// A matrix: a tensor of rank two, stored row by row. A matrix may have no
/// rows and still a number of columns; one built from given rows has at least
/// one row.
#[derive(Debug, PartialEq)]
pub struct Tensor2D<T> {
    /// The rows.
    materia: Vec<Vec<T>>,
    /// The number of rows.
    ordines: usize,
    /// The number of columns.
    columnae: usize,
}

impl<T> View for Tensor2D<T> {
    type V = Seq<Seq<T>>;

    closed spec fn view(&self) -> Seq<Seq<T>> {
        figura(self.materia@)
    }
}

impl<T> Tensor2D<T> {
    /// There are as many rows as on record, each of as many elements as
    /// there are columns on record.
    #[verifier::type_invariant]
    spec fn bene_formatus(&self) -> bool {
        rectangulum(figura(self.materia@), self.ordines as nat, self.columnae as nat)
    }

    /// The number of columns. The number of rows is the length of the view.
    pub closed spec fn spec_columnae(&self) -> nat {
        self.columnae as nat
    }
}

/// A copy of the rows of a matrix.
fn exemplar_ordinum<T: Copy>(m: &Vec<Vec<T>>) -> (r: Vec<Vec<T>>)
    ensures
        figura(r@) == figura(m@),
{
    let mut r: Vec<Vec<T>> = Vec::new();
    let mut i: usize = 0;
    while i < m.len()
        invariant
            i <= m@.len(),
            r@.len() == i,
            forall|k: int| 0 <= k < i ==> (#[trigger] r@[k])@ == m@[k]@,
        decreases m@.len() - i,
    {
        r.push(exemplar(&m[i]));
        i += 1;
    }
    assert(figura(r@) =~= figura(m@));
    r
}

impl<T: Copy> Clone for Tensor2D<T> {
    fn clone(&self) -> (r: Self)
        ensures
            r@ == self@,
            r.spec_columnae() == self.spec_columnae(),
    {
        proof {
            use_type_invariant(self);
        }
        Tensor2D {
            materia: exemplar_ordinum(&self.materia),
            ordines: self.ordines,
            columnae: self.columnae,
        }
    }
}

impl<T: Numerus> Tensor2D<T> {
    /// The matrix that holds the given rows. At least one row is needed, and
    /// all rows must have the length of the first.
    pub fn ex_vec(materia: Vec<Vec<T>>) -> (r: Result<Self, Erratum>)
        ensures
            r is Ok <==> materia@.len() > 0 && forall|i: int|
                0 <= i < materia@.len() ==> (#[trigger] materia@[i])@.len() == materia@[0]@.len(),
            r is Err ==> r == Err::<Self, Erratum>(Erratum::ShapeError),
            r is Ok ==> r->Ok_0@ == figura(materia@) && r->Ok_0.spec_columnae()
                == materia@[0]@.len(),
    {
        let ordines = materia.len();
        if ordines == 0 {
            return Err(Erratum::ShapeError);
        }
        let columnae = materia[0].len();
        let mut i: usize = 0;
        while i < ordines
            invariant
                ordines == materia@.len(),
                ordines > 0,
                columnae == materia@[0]@.len(),
                i <= ordines,
                forall|k: int| 0 <= k < i ==> (#[trigger] materia@[k])@.len() == columnae,
            decreases ordines - i,
        {
            if materia[i].len() != columnae {
                return Err(Erratum::ShapeError);
            }
            i += 1;
        }
        Ok(Tensor2D { materia, ordines, columnae })
    }

    /// The number of rows.
    pub fn ordines(&self) -> (r: usize)
        ensures
            r == self@.len(),
            rectangulum(self@, self@.len(), self.spec_columnae()),
    {
        proof {
            use_type_invariant(self);
        }
        self.ordines
    }

    /// The number of columns, which is the length of every row.
    pub fn columnae(&self) -> (r: usize)
        ensures
            r == self.spec_columnae(),
            rectangulum(self@, self@.len(), r as nat),
    {
        proof {
            use_type_invariant(self);
        }
        self.columnae
    }

    /// The rows, in order.
    pub fn materia(&self) -> (r: &Vec<Vec<T>>)
        ensures
            figura(r@) == self@,
            rectangulum(self@, self@.len(), self.spec_columnae()),
    {
        proof {
            use_type_invariant(self);
        }
        &self.materia
    }

    /// The matrix of the given shape that holds neutral elements only.
    pub fn nullus(ordines: usize, columnae: usize) -> (r: Self)
        ensures
            rectangulum(r@, ordines as nat, columnae as nat),
            r.spec_columnae() == columnae,
            matrix_nulla(r@),
    {
        let mut materia: Vec<Vec<T>> = Vec::new();
        while materia.len() < ordines
            invariant
                materia@.len() <= ordines,
                rectangulum(figura(materia@), materia@.len(), columnae as nat),
                matrix_nulla(figura(materia@)),
            decreases ordines - materia@.len(),
        {
            let ghost prior = figura(materia@);
            let ordo = Tensor1D::<T>::nullus(columnae);
            materia.push(ordo.materia);
            assert forall|i: int| 0 <= i < materia@.len() implies (#[trigger] figura(
                materia@,
            )[i]).len() == columnae && vector_nullus(figura(materia@)[i]) by {
                if i < prior.len() {
                    assert(figura(materia@)[i] == prior[i]);
                }
            }
        }
        Tensor2D { materia, ordines, columnae }
    }

    /// A matrix of the given shape that holds independent random draws.
    pub fn fortuitus(ordines: usize, columnae: usize) -> (r: Self) where Standard: Distribution<T>
        ensures
            rectangulum(r@, ordines as nat, columnae as nat),
            r.spec_columnae() == columnae,
            matrix_fortuita(r@),
    {
        let mut materia: Vec<Vec<T>> = Vec::new();
        while materia.len() < ordines
            invariant
                materia@.len() <= ordines,
                rectangulum(figura(materia@), materia@.len(), columnae as nat),
                matrix_fortuita(figura(materia@)),
            decreases ordines - materia@.len(),
        {
            let ghost prior = figura(materia@);
            let ordo = Tensor1D::<T>::fortuitus(columnae);
            materia.push(ordo.materia);
            assert forall|i: int| 0 <= i < materia@.len() implies (#[trigger] figura(
                materia@,
            )[i]).len() == columnae && vector_fortuitus(figura(materia@)[i]) by {
                if i < prior.len() {
                    assert(figura(materia@)[i] == prior[i]);
                }
            }
        }
        Tensor2D { materia, ordines, columnae }
    }

    /// The elementwise sum of two matrices of one shape.
    pub fn adde(&self, alius: &Self) -> (r: Result<Self, Erratum>)
        ensures
            r is Ok <==> self@.len() == alius@.len() && self.spec_columnae()
                == alius.spec_columnae(),
            r is Err ==> r == Err::<Self, Erratum>(Erratum::ShapeError),
            r is Ok ==> summa_matricum(self@, alius@, r->Ok_0@) && r->Ok_0.spec_columnae()
                == self.spec_columnae(),
    {
        proof {
            use_type_invariant(self);
            use_type_invariant(alius);
        }
        if self.ordines != alius.ordines || self.columnae != alius.columnae {
            return Err(Erratum::ShapeError);
        }
        let mut materia: Vec<Vec<T>> = Vec::new();
        let mut i: usize = 0;
        while i < self.ordines
            invariant
                rectangulum(self@, self.ordines as nat, self.columnae as nat),
                rectangulum(alius@, self.ordines as nat, self.columnae as nat),
                i <= self.ordines,
                materia@.len() == i,
                forall|k: int|
                    0 <= k < i ==> summa_vectorum(self@[k], alius@[k], (#[trigger] materia@[k])@),
            decreases self.ordines - i,
        {
            let a = &self.materia[i];
            let b = &alius.materia[i];
            assert(a@ == self@[i as int] && b@ == alius@[i as int]);
            let mut ordo: Vec<T> = Vec::new();
            let mut j: usize = 0;
            while j < self.columnae
                invariant
                    a@.len() == self.columnae,
                    b@.len() == self.columnae,
                    j <= self.columnae,
                    ordo@.len() == j,
                    forall|k: int| 0 <= k < j ==> est_summa(a@[k], b@[k], #[trigger] ordo@[k]),
                decreases self.columnae - j,
            {
                ordo.push(a[j].summa(b[j]));
                j += 1;
            }
            materia.push(ordo);
            i += 1;
        }
        let r = Tensor2D { materia, ordines: self.ordines, columnae: self.columnae };
        assert(summa_matricum(self@, alius@, r@));
        Ok(r)
    }

    /// The matrix with every element multiplied by `scala`.
    pub fn multiplica_per_scalar(&self, scala: T) -> (r: Self)
        ensures
            matrix_scalata(self@, scala, r@),
            r.spec_columnae() == self.spec_columnae(),
    {
        proof {
            use_type_invariant(self);
        }
        let mut materia: Vec<Vec<T>> = Vec::new();
        let mut i: usize = 0;
        while i < self.ordines
            invariant
                rectangulum(self@, self.ordines as nat, self.columnae as nat),
                i <= self.ordines,
                materia@.len() == i,
                forall|k: int|
                    0 <= k < i ==> vector_scalatus(self@[k], scala, (#[trigger] materia@[k])@),
            decreases self.ordines - i,
        {
            let a = &self.materia[i];
            assert(a@ == self@[i as int]);
            let mut ordo: Vec<T> = Vec::new();
            let mut j: usize = 0;
            while j < self.columnae
                invariant
                    a@.len() == self.columnae,
                    j <= self.columnae,
                    ordo@.len() == j,
                    forall|k: int| 0 <= k < j ==> est_productum(a@[k], scala, #[trigger] ordo@[k]),
                decreases self.columnae - j,
            {
                ordo.push(a[j].productum(scala));
                j += 1;
            }
            materia.push(ordo);
            i += 1;
        }
        let r = Tensor2D { materia, ordines: self.ordines, columnae: self.columnae };
        assert(matrix_scalata(self@, scala, r@));
        r
    }

    /// The matrix product, defined where `self` has as many columns as
    /// `alius` has rows. Each element is accumulated from the neutral element
    /// along the shared dimension, first index first.
    pub fn productum_matriciale(&self, alius: &Self) -> (r: Result<Self, Erratum>)
        ensures
            r is Ok <==> self.spec_columnae() == alius@.len(),
            r is Err ==> r == Err::<Self, Erratum>(Erratum::ShapeError),
            r is Ok ==> productum_matricum(self@, alius@, alius.spec_columnae(), r->Ok_0@)
                && r->Ok_0.spec_columnae() == alius.spec_columnae(),
    {
        proof {
            use_type_invariant(self);
            use_type_invariant(alius);
        }
        if self.columnae != alius.ordines {
            return Err(Erratum::ShapeError);
        }
        let mut materia: Vec<Vec<T>> = Vec::new();
        let mut i: usize = 0;
        while i < self.ordines
            invariant
                rectangulum(self@, self.ordines as nat, self.columnae as nat),
                rectangulum(alius@, alius.ordines as nat, alius.columnae as nat),
                self.columnae == alius.ordines,
                i <= self.ordines,
                materia@.len() == i,
                forall|k: int| 0 <= k < i ==> (#[trigger] materia@[k])@.len() == alius.columnae,
                forall|k: int, j: int|
                    0 <= k < i && 0 <= j < alius.columnae ==> summa_productorum(
                        self@[k],
                        columna(alius@, j),
                        alius@.len(),
                        #[trigger] materia@[k]@[j],
                    ),
            decreases self.ordines - i,
        {
            let a = &self.materia[i];
            assert(a@ == self@[i as int]);
            let mut ordo: Vec<T> = Vec::new();
            let mut j: usize = 0;
            while j < alius.columnae
                invariant
                    rectangulum(alius@, alius.ordines as nat, alius.columnae as nat),
                    a@.len() == alius.ordines,
                    j <= alius.columnae,
                    ordo@.len() == j,
                    forall|c: int|
                        0 <= c < j ==> summa_productorum(
                            a@,
                            columna(alius@, c),
                            alius@.len(),
                            #[trigger] ordo@[c],
                        ),
                decreases alius.columnae - j,
            {
                let ghost col = columna(alius@, j as int);
                let mut acc = T::nullum();
                let mut k: usize = 0;
                while k < alius.ordines
                    invariant
                        rectangulum(alius@, alius.ordines as nat, alius.columnae as nat),
                        a@.len() == alius.ordines,
                        j < alius.columnae,
                        col == columna(alius@, j as int),
                        k <= alius.ordines,
                        summa_productorum(a@, col, k as nat, acc),
                    decreases alius.ordines - k,
                {
                    assert(alius.materia@[k as int]@ == alius@[k as int]);
                    let b = alius.materia[k][j];
                    assert(b == col[k as int]);
                    let m = a[k].productum(b);
                    let proximus = acc.summa(m);
                    assert(summa_productorum(a@, col, k as nat, acc) && est_productum(
                        a@[k as int],
                        col[k as int],
                        m,
                    ) && est_summa(acc, m, proximus));
                    acc = proximus;
                    k += 1;
                }
                ordo.push(acc);
                j += 1;
            }
            materia.push(ordo);
            i += 1;
        }
        let r = Tensor2D { materia, ordines: self.ordines, columnae: alius.columnae };
        assert(productum_matricum(self@, alius@, alius.spec_columnae(), r@));
        Ok(r)
    }

    /// The transposed matrix: element `(j, i)` is element `(i, j)` of `self`.
    pub fn transposita(&self) -> (r: Self)
        ensures
            rectangulum(r@, self.spec_columnae(), self@.len()),
            r.spec_columnae() == self@.len(),
            forall|j: int| 0 <= j < r@.len() ==> #[trigger] r@[j] == columna(self@, j),
    {
        proof {
            use_type_invariant(self);
        }
        let mut materia: Vec<Vec<T>> = Vec::new();
        let mut j: usize = 0;
        while j < self.columnae
            invariant
                rectangulum(self@, self.ordines as nat, self.columnae as nat),
                j <= self.columnae,
                materia@.len() == j,
                forall|c: int| 0 <= c < j ==> (#[trigger] materia@[c])@ == columna(self@, c),
            decreases self.columnae - j,
        {
            let mut ordo: Vec<T> = Vec::new();
            let mut i: usize = 0;
            while i < self.ordines
                invariant
                    rectangulum(self@, self.ordines as nat, self.columnae as nat),
                    j < self.columnae,
                    i <= self.ordines,
                    ordo@.len() == i,
                    forall|k: int| 0 <= k < i ==> #[trigger] ordo@[k] == self@[k][j as int],
                decreases self.ordines - i,
            {
                assert(self.materia@[i as int]@ == self@[i as int]);
                ordo.push(self.materia[i][j]);
                i += 1;
            }
            assert(ordo@ =~= columna(self@, j as int));
            materia.push(ordo);
            j += 1;
        }
        Tensor2D { materia, ordines: self.columnae, columnae: self.ordines }
    }
}

impl<T: Numerus> Tensor1D<T> {
    /// The column matrix that holds the elements of the vector, one to a row.
    pub fn transpone(&self) -> (r: Tensor2D<T>)
        ensures
            r@ == columna_ex_vectore(self@),
            rectangulum(r@, self@.len(), 1),
            columna(r@, 0) == self@,
            r.spec_columnae() == 1,
    {
        proof {
            use_type_invariant(self);
        }
        let mut materia: Vec<Vec<T>> = Vec::new();
        let mut i: usize = 0;
        while i < self.magnitudo
            invariant
                self.magnitudo == self.materia@.len(),
                i <= self.magnitudo,
                materia@.len() == i,
                forall|k: int| 0 <= k < i ==> (#[trigger] materia@[k])@ == seq![self@[k]],
            decreases self.magnitudo - i,
        {
            let mut ordo: Vec<T> = Vec::new();
            ordo.push(self.materia[i]);
            assert(ordo@ =~= seq![self@[i as int]]);
            materia.push(ordo);
            i += 1;
        }
        assert(figura(materia@) =~= columna_ex_vectore(self@));
        assert(columna(columna_ex_vectore(self@), 0) =~= self@);
        Tensor2D { materia, ordines: self.magnitudo, columnae: 1 }
    }
}

/// The planes of a nested vector, each taken as a sequence of rows.
pub open spec fn figura_planorum<T>(m: Seq<Vec<Vec<T>>>) -> Seq<Seq<Seq<T>>> {
    Seq::new(m.len(), |p: int| figura(m[p]@))
}

/// `m` has `profunditas` planes of `altitudo` rows of `latitudo` elements.
pub open spec fn cuboides<T>(
    m: Seq<Seq<Seq<T>>>,
    profunditas: nat,
    altitudo: nat,
    latitudo: nat,
) -> bool {
    &&& m.len() == profunditas
    &&& forall|p: int| 0 <= p < m.len() ==> rectangulum(#[trigger] m[p], altitudo, latitudo)
}

/// Every element of `r` is a value of the neutral element.
pub open spec fn cubus_nullus<T: Numerus>(r: Seq<Seq<Seq<T>>>) -> bool {
    forall|p: int| 0 <= p < r.len() ==> matrix_nulla(#[trigger] r[p])
}

/// Every element of `r` is a value that one random draw gave.
pub open spec fn cubus_fortuitus<T>(r: Seq<Seq<Seq<T>>>) -> bool where Standard: Distribution<T> {
    forall|p: int| 0 <= p < r.len() ==> matrix_fortuita(#[trigger] r[p])
}

/// A stack of matrices of one shape: a tensor of rank three. A tensor may
/// have no planes and still a shape of its planes; one built from given
/// planes has at least one plane and one row.
#[derive(Debug, PartialEq)]
pub struct Tensor3D<T> {
    /// The planes, each stored row by row.
    materia: Vec<Vec<Vec<T>>>,
    /// The number of planes.
    profunditas: usize,
    /// The number of rows in every plane.
    altitudo: usize,
    /// The number of elements in every row.
    latitudo: usize,
}

impl<T> View for Tensor3D<T> {
    type V = Seq<Seq<Seq<T>>>;

    closed spec fn view(&self) -> Seq<Seq<Seq<T>>> {
        figura_planorum(self.materia@)
    }
}

impl<T> Tensor3D<T> {
    /// There are as many planes as on record, each of the shape on record.
    #[verifier::type_invariant]
    spec fn bene_formatus(&self) -> bool {
        cuboides(
            figura_planorum(self.materia@),
            self.profunditas as nat,
            self.altitudo as nat,
            self.latitudo as nat,
        )
    }

    /// The number of rows in every plane. The number of planes is the length
    /// of the view.
    pub closed spec fn spec_altitudo(&self) -> nat {
        self.altitudo as nat
    }

    /// The number of elements in every row.
    pub closed spec fn spec_latitudo(&self) -> nat {
        self.latitudo as nat
    }
}

impl<T: Copy> Clone for Tensor3D<T> {
    fn clone(&self) -> (r: Self)
        ensures
            r@ == self@,
            r.spec_altitudo() == self.spec_altitudo(),
            r.spec_latitudo() == self.spec_latitudo(),
    {
        proof {
            use_type_invariant(self);
        }
        let mut materia: Vec<Vec<Vec<T>>> = Vec::new();
        let mut p: usize = 0;
        while p < self.materia.len()
            invariant
                p <= self.materia@.len(),
                materia@.len() == p,
                forall|k: int| 0 <= k < p ==> figura((#[trigger] materia@[k])@) == self@[k],
            decreases self.materia@.len() - p,
        {
            materia.push(exemplar_ordinum(&self.materia[p]));
            p += 1;
        }
        assert(figura_planorum(materia@) =~= self@);
        Tensor3D {
            materia,
            profunditas: self.profunditas,
            altitudo: self.altitudo,
            latitudo: self.latitudo,
        }
    }
}

impl<T: Numerus> Tensor3D<T> {
    /// The tensor that holds the given planes. At least one plane and one row
    /// are needed; all planes must have as many rows as the first, and all
    /// rows the length of the first row.
    pub fn ex_vec(materia: Vec<Vec<Vec<T>>>) -> (r: Result<Self, Erratum>)
        ensures
            r is Ok <==> materia@.len() > 0 && materia@[0]@.len() > 0 && cuboides(
                figura_planorum(materia@),
                materia@.len(),
                materia@[0]@.len(),
                materia@[0]@[0]@.len(),
            ),
            r is Err ==> r == Err::<Self, Erratum>(Erratum::ShapeError),
            r is Ok ==> r->Ok_0@ == figura_planorum(materia@) && r->Ok_0.spec_altitudo()
                == materia@[0]@.len() && r->Ok_0.spec_latitudo() == materia@[0]@[0]@.len(),
    {
        let profunditas = materia.len();
        if profunditas == 0 {
            return Err(Erratum::ShapeError);
        }
        let altitudo = materia[0].len();
        if altitudo == 0 {
            return Err(Erratum::ShapeError);
        }
        let latitudo = materia[0][0].len();
        let ghost totum = figura_planorum(materia@);
        let mut p: usize = 0;
        while p < profunditas
            invariant
                profunditas == materia@.len(),
                altitudo == materia@[0]@.len(),
                latitudo == materia@[0]@[0]@.len(),
                totum == figura_planorum(materia@),
                p <= profunditas,
                forall|k: int|
                    0 <= k < p ==> rectangulum(
                        #[trigger] totum[k],
                        altitudo as nat,
                        latitudo as nat,
                    ),
            decreases profunditas - p,
        {
            let planum = &materia[p];
            assert(figura(planum@) == totum[p as int]);
            if planum.len() != altitudo {
                assert(!rectangulum(totum[p as int], altitudo as nat, latitudo as nat));
                return Err(Erratum::ShapeError);
            }
            let mut i: usize = 0;
            while i < altitudo
                invariant
                    planum@.len() == altitudo,
                    figura(planum@) == totum[p as int],
                    totum == figura_planorum(materia@),
                    altitudo == materia@[0]@.len(),
                    latitudo == materia@[0]@[0]@.len(),
                    0 <= p < totum.len(),
                    i <= altitudo,
                    forall|k: int| 0 <= k < i ==> (#[trigger] planum@[k])@.len() == latitudo,
                decreases altitudo - i,
            {
                if planum[i].len() != latitudo {
                    assert(totum[p as int][i as int] == planum@[i as int]@);
                    assert(!rectangulum(totum[p as int], altitudo as nat, latitudo as nat));
                    return Err(Erratum::ShapeError);
                }
                i += 1;
            }
            assert(rectangulum(totum[p as int], altitudo as nat, latitudo as nat));
            p += 1;
        }
        Ok(Tensor3D { materia, profunditas, altitudo, latitudo })
    }

    /// The number of planes.
    pub fn profunditas(&self) -> (r: usize)
        ensures
            r == self@.len(),
            cuboides(self@, self@.len(), self.spec_altitudo(), self.spec_latitudo()),
    {
        proof {
            use_type_invariant(self);
        }
        self.profunditas
    }

    /// The number of rows in every plane.
    pub fn altitudo(&self) -> (r: usize)
        ensures
            r == self.spec_altitudo(),
            cuboides(self@, self@.len(), self.spec_altitudo(), self.spec_latitudo()),
    {
        proof {
            use_type_invariant(self);
        }
        self.altitudo
    }

    /// The number of elements in every row.
    pub fn latitudo(&self) -> (r: usize)
        ensures
            r == self.spec_latitudo(),
            cuboides(self@, self@.len(), self.spec_altitudo(), self.spec_latitudo()),
    {
        proof {
            use_type_invariant(self);
        }
        self.latitudo
    }

    /// The planes, in order.
    pub fn materia(&self) -> (r: &Vec<Vec<Vec<T>>>)
        ensures
            figura_planorum(r@) == self@,
            cuboides(self@, self@.len(), self.spec_altitudo(), self.spec_latitudo()),
    {
        proof {
            use_type_invariant(self);
        }
        &self.materia
    }

    /// Row `index` of plane `planum` as a vector, where there is such a row.
    pub fn ordo(&self, planum: usize, index: usize) -> (r: Option<Tensor1D<T>>)
        ensures
            r is Some <==> planum < self@.len() && index < self.spec_altitudo(),
            r is Some ==> r->Some_0@ == self@[planum as int][index as int],
    {
        proof {
            use_type_invariant(self);
        }
        if planum >= self.profunditas || index >= self.altitudo {
            return None;
        }
        assert(rectangulum(self@[planum as int], self.altitudo as nat, self.latitudo as nat));
        assert(figura(self.materia@[planum as int]@) == self@[planum as int]);
        assert(self.materia@[planum as int]@[index as int]@ == self@[planum as int][index as int]);
        Some(Tensor1D::ex_vec(exemplar(&self.materia[planum][index])))
    }

    /// The tensor of the given shape that holds neutral elements only.
    pub fn nullus(profunditas: usize, altitudo: usize, latitudo: usize) -> (r: Self)
        ensures
            cuboides(r@, profunditas as nat, altitudo as nat, latitudo as nat),
            r.spec_altitudo() == altitudo,
            r.spec_latitudo() == latitudo,
            cubus_nullus(r@),
    {
        let mut materia: Vec<Vec<Vec<T>>> = Vec::new();
        while materia.len() < profunditas
            invariant
                materia@.len() <= profunditas,
                cuboides(
                    figura_planorum(materia@),
                    materia@.len(),
                    altitudo as nat,
                    latitudo as nat,
                ),
                cubus_nullus(figura_planorum(materia@)),
            decreases profunditas - materia@.len(),
        {
            let ghost prior = figura_planorum(materia@);
            let planum = Tensor2D::<T>::nullus(altitudo, latitudo);
            materia.push(planum.materia);
            assert forall|p: int| 0 <= p < materia@.len() implies rectangulum(
                #[trigger] figura_planorum(materia@)[p],
                altitudo as nat,
                latitudo as nat,
            ) && matrix_nulla(figura_planorum(materia@)[p]) by {
                if p < prior.len() {
                    assert(figura_planorum(materia@)[p] == prior[p]);
                }
            }
        }
        Tensor3D { materia, profunditas, altitudo, latitudo }
    }

    /// A tensor of the given shape that holds independent random draws.
    pub fn fortuitus(profunditas: usize, altitudo: usize, latitudo: usize) -> (r: Self) where
        Standard: Distribution<T>,

        ensures
            cuboides(r@, profunditas as nat, altitudo as nat, latitudo as nat),
            r.spec_altitudo() == altitudo,
            r.spec_latitudo() == latitudo,
            cubus_fortuitus(r@),
    {
        let mut materia: Vec<Vec<Vec<T>>> = Vec::new();
        while materia.len() < profunditas
            invariant
                materia@.len() <= profunditas,
                cuboides(
                    figura_planorum(materia@),
                    materia@.len(),
                    altitudo as nat,
                    latitudo as nat,
                ),
                cubus_fortuitus(figura_planorum(materia@)),
            decreases profunditas - materia@.len(),
        {
            let ghost prior = figura_planorum(materia@);
            let planum = Tensor2D::<T>::fortuitus(altitudo, latitudo);
            materia.push(planum.materia);
            assert forall|p: int| 0 <= p < materia@.len() implies rectangulum(
                #[trigger] figura_planorum(materia@)[p],
                altitudo as nat,
                latitudo as nat,
            ) && matrix_fortuita(figura_planorum(materia@)[p]) by {
                if p < prior.len() {
                    assert(figura_planorum(materia@)[p] == prior[p]);
                }
            }
        }
        Tensor3D { materia, profunditas, altitudo, latitudo }
    }
}

/// Where the sum of two scalars does not depend on their order, neither does
/// the sum of two vectors: every sum of `a` and `b` is a sum of `b` and `a`.
pub proof fn lex_summa_vectorum_commutat<T: Numerus>(a: Seq<T>, b: Seq<T>, r: Seq<T>)
    requires
        forall|x: T, y: T, z: T| #[trigger] est_summa(x, y, z) ==> est_summa(y, x, z),
        summa_vectorum(a, b, r),
    ensures
        summa_vectorum(b, a, r),
{
}

/// Where the sum of two scalars does not depend on their order, neither does
/// the sum of two matrices: every sum of `a` and `b` is a sum of `b` and `a`.
pub proof fn lex_summa_matricum_commutat<T: Numerus>(
    a: Seq<Seq<T>>,
    b: Seq<Seq<T>>,
    r: Seq<Seq<T>>,
)
    requires
        forall|x: T, y: T, z: T| #[trigger] est_summa(x, y, z) ==> est_summa(y, x, z),
        summa_matricum(a, b, r),
    ensures
        summa_matricum(b, a, r),
{
    assert forall|i: int| 0 <= i < r.len() implies summa_vectorum(b[i], a[i], #[trigger] r[i]) by {
        lex_summa_vectorum_commutat(a[i], b[i], r[i]);
    }
}

/// The sums of the scalars `x`, `y` and `z` do not depend on how they are
/// grouped: every value of `(x + y) + z` is a value of `x + (y + z)`.
pub open spec fn summa_consociat<T: Numerus>(x: T, y: T, z: T) -> bool {
    forall|p: T, r: T|
        #![trigger est_summa(x, y, p), est_summa(p, z, r)]
        est_summa(x, y, p) && est_summa(p, z, r) ==> exists|q: T|
            est_summa(y, z, q) && #[trigger] est_summa(x, q, r)
}

/// Where the sums of the elements of three vectors do not depend on how they
/// are grouped, neither do the sums of the vectors: every value of
/// `(a + b) + c` is a value of `a + (b + c)`.
pub proof fn lex_summa_vectorum_consociat<T: Numerus>(
    a: Seq<T>,
    b: Seq<T>,
    c: Seq<T>,
    p: Seq<T>,
    r: Seq<T>,
)
    requires
        forall|i: int| 0 <= i < a.len() ==> #[trigger] summa_consociat(a[i], b[i], c[i]),
        summa_vectorum(a, b, p),
        summa_vectorum(p, c, r),
    ensures
        exists|q: Seq<T>| summa_vectorum(b, c, q) && #[trigger] summa_vectorum(a, q, r),
{
    let q = Seq::new(
        a.len(),
        |i: int| choose|q: T| est_summa(b[i], c[i], q) && #[trigger] est_summa(a[i], q, r[i]),
    );
    assert forall|i: int| 0 <= i < a.len() implies est_summa(b[i], c[i], #[trigger] q[i])
        && est_summa(a[i], q[i], r[i]) by {
        assert(summa_consociat(a[i], b[i], c[i]));
        assert(est_summa(a[i], b[i], p[i]) && est_summa(p[i], c[i], r[i]));
    }
    assert(summa_vectorum(b, c, q) && summa_vectorum(a, q, r));
}

/// Where the sums of the elements of three matrices do not depend on how
/// they are grouped, neither do the sums of the matrices: every value of
/// `(a + b) + c` is a value of `a + (b + c)`.
pub proof fn lex_summa_matricum_consociat<T: Numerus>(
    a: Seq<Seq<T>>,
    b: Seq<Seq<T>>,
    c: Seq<Seq<T>>,
    p: Seq<Seq<T>>,
    r: Seq<Seq<T>>,
)
    requires
        forall|i: int, j: int|
            0 <= i < a.len() && 0 <= j < a[i].len() ==> #[trigger] summa_consociat(
                a[i][j],
                b[i][j],
                c[i][j],
            ),
        summa_matricum(a, b, p),
        summa_matricum(p, c, r),
    ensures
        exists|q: Seq<Seq<T>>| summa_matricum(b, c, q) && #[trigger] summa_matricum(a, q, r),
{
    let q = Seq::new(
        a.len(),
        |i: int|
            choose|q: Seq<T>| summa_vectorum(b[i], c[i], q) && #[trigger] summa_vectorum(
                a[i],
                q,
                r[i],
            ),
    );
    assert forall|i: int| 0 <= i < a.len() implies summa_vectorum(b[i], c[i], #[trigger] q[i])
        && summa_vectorum(a[i], q[i], r[i]) by {
        assert(summa_vectorum(a[i], b[i], p[i]) && summa_vectorum(p[i], c[i], r[i]));
        assert forall|j: int| 0 <= j < a[i].len() implies #[trigger] summa_consociat(
            a[i][j],
            b[i][j],
            c[i][j],
        ) by {}
        lex_summa_vectorum_consociat(a[i], b[i], c[i], p[i], r[i]);
    }
    assert(summa_matricum(b, c, q) && summa_matricum(a, q, r));
}

/// A sum of two vectors has their length, and a sum of two matrices their
/// shape.
pub proof fn lex_summa_formam_servat<T: Numerus>(
    a: Seq<Seq<T>>,
    b: Seq<Seq<T>>,
    r: Seq<Seq<T>>,
    ordines: nat,
    columnae: nat,
)
    requires
        rectangulum(a, ordines, columnae),
        summa_matricum(a, b, r),
    ensures
        rectangulum(b, ordines, columnae),
        rectangulum(r, ordines, columnae),
{
    assert forall|i: int| 0 <= i < r.len() implies (#[trigger] r[i]).len() == columnae by {
        assert(summa_vectorum(a[i], b[i], r[i]));
    }
    assert forall|i: int| 0 <= i < b.len() implies (#[trigger] b[i]).len() == columnae by {
        assert(summa_vectorum(a[i], b[i], r[i]));
    }
}

/// The column of the column matrix of a vector holds the values of the
/// vector in order, and the matrix has one row for each of them.
pub proof fn lex_columna_vectoris<T>(v: Seq<T>)
    ensures
        rectangulum(columna_ex_vectore(v), v.len(), 1),
        columna(columna_ex_vectore(v), 0) == v,
{
    assert(columna(columna_ex_vectore(v), 0) =~= v);
}

/// `m` is an identity matrix of `n` rows and columns: a unit in every place
/// of the diagonal, a neutral element in every other place.
pub open spec fn matrix_identitatis<T: Numerus>(m: Seq<Seq<T>>, n: nat) -> bool {
    &&& rectangulum(m, n, n)
    &&& forall|i: int, j: int|
        0 <= i < n && 0 <= j < n ==> if i == j {
            est_unum(#[trigger] m[i][j])
        } else {
            est_nullum(m[i][j])
        }
}

/// Adding `x` times a neutral element to `y` leaves `y`.
pub open spec fn nihil_addit<T: Numerus>(x: T, y: T) -> bool {
    forall|z: T, p: T, r: T|
        #![trigger est_productum(x, z, p), est_summa(y, p, r)]
        est_nullum(z) && est_productum(x, z, p) && est_summa(y, p, r) ==> r == y
}

/// A neutral element plus `x` times a unit is `x`.
pub open spec fn unitas_servat<T: Numerus>(x: T) -> bool {
    forall|z: T, u: T, p: T, r: T|
        #![trigger est_productum(x, u, p), est_summa(z, p, r)]
        est_nullum(z) && est_unum(u) && est_productum(x, u, p) && est_summa(z, p, r) ==> r == x
}

/// The arithmetic of the scalars of the row `a` is exact where the product
/// with an identity matrix needs it: a neutral element plus an element times
/// a unit is that element, and adding an element times a neutral element
/// leaves a neutral element and every element of the row as it was.
pub open spec fn ordo_exactus<T: Numerus>(a: Seq<T>) -> bool {
    &&& forall|k: int| 0 <= k < a.len() ==> unitas_servat(#[trigger] a[k])
    &&& forall|k: int, z: T| 0 <= k < a.len() && est_nullum(z) ==> #[trigger] nihil_addit(a[k], z)
    &&& forall|k: int, j: int|
        0 <= k < a.len() && 0 <= j < a.len() ==> #[trigger] nihil_addit(a[k], a[j])
}

/// A sum of the products of the first `n` elements of a row with those of
/// column `j` of an identity matrix is a neutral element up to place `j`, and
/// element `j` of the row from there on, where the arithmetic is exact.
proof fn lemma_summa_cum_columna_identitatis<T: Numerus>(
    a: Seq<T>,
    col: Seq<T>,
    j: int,
    n: nat,
    acc: T,
)
    requires
        ordo_exactus(a),
        col.len() == a.len(),
        0 <= j < a.len(),
        n <= a.len(),
        forall|k: int|
            0 <= k < col.len() ==> if k == j {
                est_unum(#[trigger] col[k])
            } else {
                est_nullum(col[k])
            },
        summa_productorum(a, col, n, acc),
    ensures
        n <= j ==> est_nullum(acc),
        n > j ==> acc == a[j],
    decreases n,
{
    if n > 0 {
        let (p, m) = choose|p: T, m: T|
            #![trigger est_summa(p, m, acc)]
            summa_productorum(a, col, (n - 1) as nat, p) && est_productum(a[n - 1], col[n - 1], m)
                && est_summa(p, m, acc);
        lemma_summa_cum_columna_identitatis(a, col, j, (n - 1) as nat, p);
        if n - 1 < j {
            assert(nihil_addit(a[n - 1], p));
        } else if n - 1 == j {
            assert(unitas_servat(a[j]));
        } else {
            assert(nihil_addit(a[n - 1], a[j]));
        }
    }
}

/// The product of a matrix with an identity matrix is the matrix itself,
/// where the arithmetic of its scalars is exact.
pub proof fn lex_productum_cum_identitate<T: Numerus>(
    a: Seq<Seq<T>>,
    identitas: Seq<Seq<T>>,
    n: nat,
    r: Seq<Seq<T>>,
)
    requires
        rectangulum(a, a.len(), n),
        matrix_identitatis(identitas, n),
        forall|i: int| 0 <= i < a.len() ==> ordo_exactus(#[trigger] a[i]),
        productum_matricum(a, identitas, n, r),
    ensures
        r == a,
{
    assert forall|i: int| 0 <= i < a.len() implies #[trigger] r[i] == a[i] by {
        assert forall|j: int| 0 <= j < n implies #[trigger] r[i][j] == a[i][j] by {
            let col = columna(identitas, j);
            assert forall|k: int| 0 <= k < col.len() implies if k == j {
                est_unum(#[trigger] col[k])
            } else {
                est_nullum(col[k])
            } by {
                assert(col[k] == identitas[k][j]);
            }
            lemma_summa_cum_columna_identitatis(a[i], col, j, n, r[i][j]);
        }
        assert(r[i] =~= a[i]);
    }
    assert(r =~= a);
}

/// Where the operations of the scalar are functions, two vectors have one
/// sum only.
pub proof fn lex_summa_vectorum_certa<T: Numerus>(a: Seq<T>, b: Seq<T>, r: Seq<T>, q: Seq<T>)
    requires
        arithmetica_certa::<T>(),
        summa_vectorum(a, b, r),
        summa_vectorum(a, b, q),
    ensures
        r == q,
{
    assert forall|i: int| 0 <= i < r.len() implies r[i] == q[i] by {
        assert(est_summa(a[i], b[i], r[i]) && est_summa(a[i], b[i], q[i]));
    }
    assert(r =~= q);
}

/// Where the operations of the scalar are functions, two matrices have one
/// sum only.
pub proof fn lex_summa_matricum_certa<T: Numerus>(
    a: Seq<Seq<T>>,
    b: Seq<Seq<T>>,
    r: Seq<Seq<T>>,
    q: Seq<Seq<T>>,
)
    requires
        arithmetica_certa::<T>(),
        summa_matricum(a, b, r),
        summa_matricum(a, b, q),
    ensures
        r == q,
{
    assert forall|i: int| 0 <= i < r.len() implies r[i] == q[i] by {
        lex_summa_vectorum_certa(a[i], b[i], r[i], q[i]);
    }
    assert(r =~= q);
}

/// Where the operations of the scalar are functions, two matrices have one
/// product only.
pub proof fn lex_productum_matricum_certum<T: Numerus>(
    a: Seq<Seq<T>>,
    b: Seq<Seq<T>>,
    columnae: nat,
    r: Seq<Seq<T>>,
    q: Seq<Seq<T>>,
)
    requires
        arithmetica_certa::<T>(),
        productum_matricum(a, b, columnae, r),
        productum_matricum(a, b, columnae, q),
    ensures
        r == q,
{
    assert forall|i: int| 0 <= i < r.len() implies r[i] == q[i] by {
        assert forall|j: int| 0 <= j < columnae implies r[i][j] == q[i][j] by {
            lex_summa_productorum_certa(a[i], columna(b, j), b.len(), r[i][j], q[i][j]);
        }
        assert(r[i] =~= q[i]);
    }
    assert(r =~= q);
}

/// Where the operations of the scalar are functions and its sum does not
/// depend on the order of its operands, the sum of `a` and `b` is the sum of
/// `b` and `a`.
pub proof fn lex_summa_vectorum_aequalis<T: Numerus>(a: Seq<T>, b: Seq<T>, r: Seq<T>, q: Seq<T>)
    requires
        arithmetica_certa::<T>(),
        forall|x: T, y: T, z: T| #[trigger] est_summa(x, y, z) ==> est_summa(y, x, z),
        summa_vectorum(a, b, r),
        summa_vectorum(b, a, q),
    ensures
        r == q,
{
    lex_summa_vectorum_commutat(a, b, r);
    lex_summa_vectorum_certa(b, a, r, q);
}

/// Where the operations of the scalar are functions and its sum does not
/// depend on the order of its operands, the sum of the matrices `a` and `b`
/// is the sum of `b` and `a`.
pub proof fn lex_summa_matricum_aequalis<T: Numerus>(
    a: Seq<Seq<T>>,
    b: Seq<Seq<T>>,
    r: Seq<Seq<T>>,
    q: Seq<Seq<T>>,
)
    requires
        arithmetica_certa::<T>(),
        forall|x: T, y: T, z: T| #[trigger] est_summa(x, y, z) ==> est_summa(y, x, z),
        summa_matricum(a, b, r),
        summa_matricum(b, a, q),
    ensures
        r == q,
{
    lex_summa_matricum_commutat(a, b, r);
    lex_summa_matricum_certa(b, a, r, q);
}

} // verus!
