use crate::activatio::{
    derivata_sigmoidis, est_derivata_sigmoidis, est_sigmoide, est_valor_sigmoidis,
    lex_derivata_certa, lex_sigmoide_certa, sigmoide,
};
use crate::erratum::Erratum;
use crate::numerus::{
    arithmetica_certa, est_differentia, est_ex_numero, est_nullum, est_productum, est_quotiens,
    est_summa, lex_summa_productorum_certa, summa_productorum, Numerus,
};
use crate::tensor::{
    columna, columna_ex_vectore, differentia_vectorum, exemplar, figura, lex_summa_vectorum_certa,
    matrix_fortuita, productum_matricum, rectangulum, summa_matricum, summa_vectorum,
    vector_fortuitus, Tensor1D, Tensor2D, Tensor3D,
};
use rand::distributions::{Distribution, Standard};
use vstd::prelude::*;

verus! {

/// What a network holds, as plain values.
pub struct Status<T> {
    /// The length of an input vector.
    pub input: nat,
    /// The number of hidden neurons.
    pub hidden: nat,
    /// The length of an output vector.
    pub output: nat,
    /// The weights from the input to the hidden layer, one row to a hidden
    /// neuron.
    pub pesi_ih: Seq<Seq<T>>,
    /// The weights from the hidden to the output layer, one row to an output
    /// neuron.
    pub pesi_ho: Seq<Seq<T>>,
    /// The biases of the hidden layer.
    pub bias_h: Seq<T>,
    /// The biases of the output layer.
    pub bias_o: Seq<T>,
    /// The learning rate.
    pub celeritas: T,
}

impl<T> Status<T> {
    /// The shapes of the weights and biases are those the topology fixes.
    pub open spec fn validus(self) -> bool {
        &&& rectangulum(self.pesi_ih, self.hidden, self.input)
        &&& rectangulum(self.pesi_ho, self.output, self.hidden)
        &&& self.bias_h.len() == self.hidden
        &&& self.bias_o.len() == self.output
    }

    /// The topology and the learning rate are those of `alter`.
    pub open spec fn eiusdem_formae(self, alter: Self) -> bool {
        &&& self.input == alter.input
        &&& self.hidden == alter.hidden
        &&& self.output == alter.output
        &&& self.celeritas == alter.celeritas
    }
}

/// `d` and `z` are the intermediate values of one evaluation of a neuron
/// with weights `w` and bias `b` on the input `x` that ends in `y`: the
/// weighted sum, and the weighted sum with the bias added.
pub open spec fn gradus_neuronis<T: Numerus>(w: Seq<T>, b: T, x: Seq<T>, d: T, z: T, y: T) -> bool {
    &&& summa_productorum(w, x, x.len(), d)
    &&& est_summa(d, b, z)
    &&& est_sigmoide(z, y)
}

/// `y` is an activation of the neuron with weights `w` and bias `b` on the
/// input `x`: the logistic function of the weighted sum plus the bias.
pub open spec fn est_neuronis<T: Numerus>(w: Seq<T>, b: T, x: Seq<T>, y: T) -> bool {
    exists|d: T, z: T| gradus_neuronis(w, b, x, d, z, y)
}

/// `y` holds an activation of every neuron of the layer with weights `w` and
/// biases `b` on the input `x`.
pub open spec fn stratum_rel<T: Numerus>(w: Seq<Seq<T>>, b: Seq<T>, x: Seq<T>, y: Seq<T>) -> bool {
    &&& y.len() == w.len()
    &&& forall|i: int| 0 <= i < y.len() ==> est_neuronis(w[i], b[i], x, #[trigger] y[i])
}

/// `h` is the hidden activation of one forward pass of `s` on `x` that ends
/// in the output `y`.
pub open spec fn gradus_praedictionis<T: Numerus>(
    s: Status<T>,
    x: Seq<T>,
    h: Seq<T>,
    y: Seq<T>,
) -> bool {
    &&& stratum_rel(s.pesi_ih, s.bias_h, x, h)
    &&& stratum_rel(s.pesi_ho, s.bias_o, h, y)
}

/// `y` is an output of the forward pass of `s` on the input `x`.
pub open spec fn praedictio_rel<T: Numerus>(s: Status<T>, x: Seq<T>, y: Seq<T>) -> bool {
    exists|h: Seq<T>| gradus_praedictionis(s, x, h, y)
}

/// `d` and `p` are the intermediate values of one evaluation of a gradient
/// that ends in `g`: the derivative of the logistic function evaluated at the
/// activation `a`, and that derivative times the error `e`.
pub open spec fn gradus_gradientis<T: Numerus>(a: T, e: T, c: T, d: T, p: T, g: T) -> bool {
    &&& est_derivata_sigmoidis(a, d)
    &&& est_productum(d, e, p)
    &&& est_productum(p, c, g)
}

/// `g` is a gradient of a neuron with activation `a` and error `e` at the
/// learning rate `c`: the derivative of the logistic function evaluated at
/// `a`, times `e`, times `c`. The derivative is taken at the activation
/// itself, so the logistic function is applied to it once more.
pub open spec fn est_gradientis<T: Numerus>(a: T, e: T, c: T, g: T) -> bool {
    exists|d: T, p: T| gradus_gradientis(a, e, c, d, p, g)
}

/// `g` holds a gradient of every neuron of a layer with activations `a` and
/// errors `e` at the learning rate `c`.
pub open spec fn gradiens_rel<T: Numerus>(a: Seq<T>, e: Seq<T>, c: T, g: Seq<T>) -> bool {
    &&& a.len() == e.len()
    &&& g.len() == a.len()
    &&& forall|i: int| 0 <= i < g.len() ==> est_gradientis(a[i], e[i], c, #[trigger] g[i])
}

/// `r` is the error `e` of a layer carried back through its weights `w`, which
/// have `columnae` columns: element `j` is a sum of the products of column
/// `j` of `w` with `e`.
pub open spec fn retro_rel<T: Numerus>(
    w: Seq<Seq<T>>,
    columnae: nat,
    e: Seq<T>,
    r: Seq<T>,
) -> bool {
    &&& r.len() == columnae
    &&& forall|j: int|
        0 <= j < r.len() ==> summa_productorum(columna(w, j), e, e.len(), #[trigger] r[j])
}

/// `d` is the intermediate value of one update of a weight `w` that ends in
/// `r`: the product of the gradient `g` and the input `v`, accumulated from
/// the neutral element.
pub open spec fn gradus_incrementi<T: Numerus>(w: T, g: T, v: T, d: T, r: T) -> bool {
    &&& summa_productorum(seq![g], seq![v], 1, d)
    &&& est_summa(w, d, r)
}

/// `r` is the weight `w` with the product of the gradient `g` and the input
/// `v` added.
pub open spec fn est_incrementi<T: Numerus>(w: T, g: T, v: T, r: T) -> bool {
    exists|d: T| gradus_incrementi(w, g, v, d, r)
}

/// `r` is the weights `w` with the outer product of the gradients `g` and
/// the inputs `v` added.
pub open spec fn renovatio_rel<T: Numerus>(
    w: Seq<Seq<T>>,
    g: Seq<T>,
    v: Seq<T>,
    r: Seq<Seq<T>>,
) -> bool {
    &&& r.len() == w.len()
    &&& forall|i: int| 0 <= i < r.len() ==> (#[trigger] r[i]).len() == w[i].len()
    &&& forall|i: int, j: int|
        0 <= i < r.len() && 0 <= j < r[i].len() ==> est_incrementi(
            w[i][j],
            g[i],
            v[j],
            #[trigger] r[i][j],
        )
}

/// The intermediate values of one training step of `s` on the input `x` and
/// the target `t` that ends in `post`: the hidden and output activations `h`
/// and `o`, the output error `e_o` and gradient `g_o`, and the hidden error
/// `e_h` and gradient `g_h`. The hidden error is carried back through the
/// weights of `s`, not through those of `post`.
pub open spec fn gradus_instructionis<T: Numerus>(
    s: Status<T>,
    x: Seq<T>,
    t: Seq<T>,
    h: Seq<T>,
    o: Seq<T>,
    e_o: Seq<T>,
    g_o: Seq<T>,
    e_h: Seq<T>,
    g_h: Seq<T>,
    post: Status<T>,
) -> bool {
    &&& post.eiusdem_formae(s)
    &&& stratum_rel(s.pesi_ih, s.bias_h, x, h)
    &&& stratum_rel(s.pesi_ho, s.bias_o, h, o)
    &&& differentia_vectorum(t, o, e_o)
    &&& gradiens_rel(o, e_o, s.celeritas, g_o)
    &&& retro_rel(s.pesi_ho, s.hidden, e_o, e_h)
    &&& gradiens_rel(h, e_h, s.celeritas, g_h)
    &&& renovatio_rel(s.pesi_ho, g_o, h, post.pesi_ho)
    &&& summa_vectorum(s.bias_o, g_o, post.bias_o)
    &&& renovatio_rel(s.pesi_ih, g_h, x, post.pesi_ih)
    &&& summa_vectorum(s.bias_h, g_h, post.bias_h)
}

/// `post` is a state of the network after one training step of `s` on the
/// input `x` and the target `t`.
pub open spec fn instructio_rel<T: Numerus>(
    s: Status<T>,
    x: Seq<T>,
    t: Seq<T>,
    post: Status<T>,
) -> bool {
    exists|h: Seq<T>, o: Seq<T>, e_o: Seq<T>, g_o: Seq<T>, e_h: Seq<T>, g_h: Seq<T>|
        gradus_instructionis(s, x, t, h, o, e_o, g_o, e_h, g_h, post)
}

/// Every plane of `m` has a first row, and that row has `latitudo` elements:
/// each plane holds one example of that length.
pub open spec fn exempla_apta<T>(m: Seq<Seq<Seq<T>>>, latitudo: nat) -> bool {
    forall|p: int| 0 <= p < m.len() ==> (#[trigger] m[p]).len() >= 1 && m[p][0].len() == latitudo
}

/// `post` is a state of the network after training steps of `s` on the first
/// `n` examples of `xs` with the targets `ts`, one step after the other in the
/// order of the examples, each step starting from the state the one before
/// it left.
pub open spec fn series_rel<T: Numerus>(
    s: Status<T>,
    xs: Seq<Seq<Seq<T>>>,
    ts: Seq<Seq<Seq<T>>>,
    n: nat,
    post: Status<T>,
) -> bool
    decreases n,
{
    if n == 0 {
        post == s
    } else {
        exists|medius: Status<T>|
            #![trigger instructio_rel(medius, xs[n - 1][0], ts[n - 1][0], post)]
            series_rel(s, xs, ts, (n - 1) as nat, medius) && instructio_rel(
                medius,
                xs[n - 1][0],
                ts[n - 1][0],
                post,
            )
    }
}

/// `r` is a sum of the squared differences of the first `n` pairs of `a` and
/// `b`, accumulated from the neutral element in the order of the indices.
pub open spec fn summa_quadratorum<T: Numerus>(a: Seq<T>, b: Seq<T>, n: nat, r: T) -> bool
    decreases n,
{
    if n == 0 {
        est_nullum(r)
    } else {
        exists|p: T, d: T, q: T|
            #![trigger est_summa(p, q, r), est_productum(d, d, q)]
            summa_quadratorum(a, b, (n - 1) as nat, p) && est_differentia(a[n - 1], b[n - 1], d)
                && est_productum(d, d, q) && est_summa(p, q, r)
    }
}

/// `s` and `n` are the intermediate values of one evaluation of the mean
/// squared error of `a` against `b` that ends in `r`: the sum of the squared
/// differences, and the number of elements as a scalar.
pub open spec fn gradus_perditionis<T: Numerus>(a: Seq<T>, b: Seq<T>, s: T, n: T, r: T) -> bool {
    &&& summa_quadratorum(a, b, a.len(), s)
    &&& est_ex_numero(a.len() as usize, n)
    &&& est_quotiens(s, n, r)
}

/// `r` is a mean squared error of `a` against `b`: the sum of the squared
/// differences divided by the number of elements.
pub open spec fn perditio_rel<T: Numerus>(a: Seq<T>, b: Seq<T>, r: T) -> bool {
    &&& a.len() == b.len()
    &&& exists|s: T, n: T| gradus_perditionis(a, b, s, n, r)
}

/// `r` is a sum, over the first `n` examples of `xs`, of a mean squared error
/// of an output of `s` on the example against its target in `ts`.
pub open spec fn summa_perditionum<T: Numerus>(
    s: Status<T>,
    xs: Seq<Seq<Seq<T>>>,
    ts: Seq<Seq<Seq<T>>>,
    n: nat,
    r: T,
) -> bool
    decreases n,
{
    if n == 0 {
        est_nullum(r)
    } else {
        exists|p: T, y: Seq<T>, l: T|
            #![trigger praedictio_rel(s, xs[n - 1][0], y), est_summa(p, l, r)]
            summa_perditionum(s, xs, ts, (n - 1) as nat, p) && praedictio_rel(s, xs[n - 1][0], y)
                && perditio_rel(y, ts[n - 1][0], l) && est_summa(p, l, r)
    }
}

/// `tot` and `n` are the intermediate values of one evaluation of the loss of
/// `s` over the examples `xs` with the targets `ts` that ends in `r`: the sum
/// of the errors of the examples, and the number of examples as a scalar.
pub open spec fn gradus_perditionis_batch<T: Numerus>(
    s: Status<T>,
    xs: Seq<Seq<Seq<T>>>,
    ts: Seq<Seq<Seq<T>>>,
    tot: T,
    n: T,
    r: T,
) -> bool {
    &&& summa_perditionum(s, xs, ts, xs.len(), tot)
    &&& est_ex_numero(xs.len() as usize, n)
    &&& est_quotiens(tot, n, r)
}

/// `r` is a loss of `s` over the examples `xs` with the targets `ts`: the
/// mean, over the examples, of the mean squared error of the output.
pub open spec fn perditio_batch_rel<T: Numerus>(
    s: Status<T>,
    xs: Seq<Seq<Seq<T>>>,
    ts: Seq<Seq<Seq<T>>>,
    r: T,
) -> bool {
    exists|tot: T, n: T| gradus_perditionis_batch(s, xs, ts, tot, n, r)
}

/// Whether the loss is reported after epoch `epochon` of `epochs`, the first
/// epoch being epoch 0: after every hundredth epoch, and after the last.
pub open spec fn nuntiandum(epochon: nat, epochs: nat) -> bool {
    epochon % 100 == 0 || epochon + 1 == epochs
}

/// State `e + 1` of `stationes` is a state after one pass over the batch from
/// state `e`.
pub open spec fn epochon_rel<T: Numerus>(
    stationes: Seq<Status<T>>,
    xs: Seq<Seq<Seq<T>>>,
    ts: Seq<Seq<Seq<T>>>,
    e: int,
) -> bool {
    series_rel(stationes[e], xs, ts, xs.len(), stationes[e + 1])
}

/// `stationes` holds the states of a training run of `epochs` passes over the
/// batch from `s`: `s` first, then the state after each pass.
pub open spec fn cursus_rel<T: Numerus>(
    s: Status<T>,
    xs: Seq<Seq<Seq<T>>>,
    ts: Seq<Seq<Seq<T>>>,
    epochs: nat,
    stationes: Seq<Status<T>>,
) -> bool {
    &&& stationes.len() == epochs + 1
    &&& stationes[0] == s
    &&& forall|e: int| 0 <= e < epochs ==> #[trigger] epochon_rel(stationes, xs, ts, e)
}

/// `nuntii` holds the reports of the first `factum` epochs of a run of
/// `epochs` epochs through the states `stationes`: one report for each epoch that
/// is to be reported and no other, in the order of the epochs, each with the
/// number of its epoch and a loss of the state after that epoch.
pub open spec fn nuntii_rel<T: Numerus>(
    stationes: Seq<Status<T>>,
    xs: Seq<Seq<Seq<T>>>,
    ts: Seq<Seq<Seq<T>>>,
    epochs: nat,
    factum: nat,
    nuntii: Seq<(usize, T)>,
) -> bool {
    &&& forall|k: int|
        0 <= k < nuntii.len() ==> (#[trigger] nuntii[k]).0 < factum && nuntiandum(
            nuntii[k].0 as nat,
            epochs,
        ) && perditio_batch_rel(stationes[nuntii[k].0 + 1], xs, ts, nuntii[k].1)
    &&& forall|j: int, k: int|
        0 <= j < k < nuntii.len() ==> (#[trigger] nuntii[j]).0 < (#[trigger] nuntii[k]).0
    &&& forall|e: nat|
        e < factum && #[trigger] nuntiandum(e, epochs) ==> exists|k: int|
            0 <= k < nuntii.len() && (#[trigger] nuntii[k]).0 == e
}

/// `stationes` holds the states of one training run of `epochs` epochs from `s`
/// that ends in `post` and gives the reports `nuntii`.
pub open spec fn gradus_disciplinae<T: Numerus>(
    s: Status<T>,
    xs: Seq<Seq<Seq<T>>>,
    ts: Seq<Seq<Seq<T>>>,
    epochs: nat,
    silentium: bool,
    stationes: Seq<Status<T>>,
    nuntii: Seq<(usize, T)>,
    post: Status<T>,
) -> bool {
    &&& cursus_rel(s, xs, ts, epochs, stationes)
    &&& post == stationes[epochs as int]
    &&& if silentium {
        nuntii.len() == 0
    } else {
        nuntii_rel(stationes, xs, ts, epochs, epochs, nuntii)
    }
}

/// `post` is a state of the network after `epochs` passes over the batch
/// from `s`, and `nuntii` the reports of that run: none where `silentium`
/// holds.
pub open spec fn disciplina_rel<T: Numerus>(
    s: Status<T>,
    xs: Seq<Seq<Seq<T>>>,
    ts: Seq<Seq<Seq<T>>>,
    epochs: nat,
    silentium: bool,
    nuntii: Seq<(usize, T)>,
    post: Status<T>,
) -> bool {
    exists|stationes: Seq<Status<T>>|
        gradus_disciplinae(s, xs, ts, epochs, silentium, stationes, nuntii, post)
}

/// A perceptron with one hidden layer and logistic activations.
#[derive(Debug, PartialEq)]
pub struct Neuronatus<T> {
    /// The length of an input vector.
    input: usize,
    /// The number of hidden neurons.
    hidden: usize,
    /// The length of an output vector.
    output: usize,
    /// The weights from the input to the hidden layer: `hidden` rows of
    /// `input` elements.
    pesi_ih: Tensor2D<T>,
    /// The weights from the hidden to the output layer: `output` rows of
    /// `hidden` elements.
    pesi_ho: Tensor2D<T>,
    /// The biases of the hidden layer.
    bias_h: Tensor1D<T>,
    /// The biases of the output layer.
    bias_o: Tensor1D<T>,
    /// The learning rate.
    celeritas: T,
}

impl<T> View for Neuronatus<T> {
    type V = Status<T>;

    closed spec fn view(&self) -> Status<T> {
        Status {
            input: self.input as nat,
            hidden: self.hidden as nat,
            output: self.output as nat,
            pesi_ih: self.pesi_ih@,
            pesi_ho: self.pesi_ho@,
            bias_h: self.bias_h@,
            bias_o: self.bias_o@,
            celeritas: self.celeritas,
        }
    }
}

impl<T> Neuronatus<T> {
    /// The weights and biases have the shapes that the topology fixes.
    #[verifier::type_invariant]
    spec fn bene_formatus(&self) -> bool {
        &&& self@.validus()
        &&& self.pesi_ih.spec_columnae() == self.input
        &&& self.pesi_ho.spec_columnae() == self.hidden
    }
}

/// The activations of one layer on an input of the width of its weights:
/// the weights times the input as a column, plus the biases, through the
/// logistic function.
fn stratum<T: Numerus>(pesi: &Tensor2D<T>, bias: &Tensor1D<T>, intrata: &Tensor1D<T>) -> (r: Result<
    Tensor1D<T>,
    Erratum,
>)
    requires
        pesi.spec_columnae() == intrata@.len(),
        bias@.len() == pesi@.len(),
    ensures
        r is Ok,
        stratum_rel(pesi@, bias@, intrata@, r->Ok_0@),
{
    let col = intrata.transpone();
    let m = pesi.productum_matriciale(&col)?;
    let bcol = bias.transpone();
    let s = m.adde(&bcol)?;
    let n = s.ordines();
    let ordines = s.materia();
    let mut y: Vec<T> = Vec::new();
    let mut i: usize = 0;
    while i < n
        invariant
            n == pesi@.len(),
            n == bias@.len(),
            figura(ordines@) == s@,
            rectangulum(s@, n as nat, 1),
            rectangulum(m@, n as nat, 1),
            summa_matricum(m@, bcol@, s@),
            bcol@ == columna_ex_vectore(bias@),
            columna(col@, 0) == intrata@,
            col@.len() == intrata@.len(),
            productum_matricum(pesi@, col@, 1, m@),
            i <= n,
            y@.len() == i,
            forall|k: int|
                0 <= k < i ==> est_neuronis(pesi@[k], bias@[k], intrata@, #[trigger] y@[k]),
        decreases n - i,
    {
        assert(ordines@[i as int]@ == s@[i as int]);
        let z = ordines[i][0];
        let v = sigmoide(z);
        proof {
            let d = m@[i as int][0];
            assert(summa_productorum(pesi@[i as int], columna(col@, 0), col@.len(), d));
            assert(summa_vectorum(m@[i as int], bcol@[i as int], s@[i as int]));
            assert(est_summa(d, bcol@[i as int][0], s@[i as int][0]));
            assert(gradus_neuronis(pesi@[i as int], bias@[i as int], intrata@, d, z, v));
        }
        y.push(v);
        i += 1;
    }
    Ok(Tensor1D::ex_vec(y))
}

/// The gradients of a layer: for every neuron the derivative of the logistic
/// function evaluated at its activation, times its error, times the learning
/// rate.
fn gradiens<T: Numerus>(activatio: &Tensor1D<T>, error: &Tensor1D<T>, celeritas: T) -> (r: Tensor1D<
    T,
>)
    requires
        activatio@.len() == error@.len(),
    ensures
        gradiens_rel(activatio@, error@, celeritas, r@),
{
    let n = activatio.magnitudo();
    let a = activatio.materia();
    let e = error.materia();
    let mut g: Vec<T> = Vec::new();
    let mut i: usize = 0;
    while i < n
        invariant
            n == a@.len(),
            n == e@.len(),
            i <= n,
            g@.len() == i,
            forall|k: int| 0 <= k < i ==> est_gradientis(a@[k], e@[k], celeritas, #[trigger] g@[k]),
        decreases n - i,
    {
        let d = derivata_sigmoidis(a[i]);
        let p = d.productum(e[i]);
        let v = p.productum(celeritas);
        assert(gradus_gradientis(a@[i as int], e@[i as int], celeritas, d, p, v));
        g.push(v);
        i += 1;
    }
    Tensor1D::ex_vec(g)
}

/// The error of a layer carried back through its weights: the transposed
/// weights times the error as a column.
fn retro<T: Numerus>(pesi: &Tensor2D<T>, error: &Tensor1D<T>) -> (r: Result<Tensor1D<T>, Erratum>)
    requires
        error@.len() == pesi@.len(),
    ensures
        r is Ok,
        retro_rel(pesi@, pesi.spec_columnae(), error@, r->Ok_0@),
{
    let transposita = pesi.transposita();
    let col = error.transpone();
    let m = transposita.productum_matriciale(&col)?;
    let n = m.ordines();
    let ordines = m.materia();
    let mut y: Vec<T> = Vec::new();
    let mut j: usize = 0;
    while j < n
        invariant
            n == pesi.spec_columnae(),
            n == transposita@.len(),
            figura(ordines@) == m@,
            rectangulum(m@, n as nat, 1),
            columna(col@, 0) == error@,
            col@.len() == error@.len(),
            productum_matricum(transposita@, col@, 1, m@),
            forall|k: int| 0 <= k < n ==> #[trigger] transposita@[k] == columna(pesi@, k),
            j <= n,
            y@.len() == j,
            forall|k: int|
                0 <= k < j ==> summa_productorum(
                    columna(pesi@, k),
                    error@,
                    error@.len(),
                    #[trigger] y@[k],
                ),
        decreases n - j,
    {
        assert(ordines@[j as int]@ == m@[j as int]);
        let v = ordines[j][0];
        proof {
            assert(summa_productorum(
                transposita@[j as int],
                columna(col@, 0),
                col@.len(),
                m@[j as int][0],
            ));
        }
        y.push(v);
        j += 1;
    }
    Ok(Tensor1D::ex_vec(y))
}

/// The weights of a layer after one update: the weights plus the gradients
/// as a column times the inputs as a row.
fn renovatio<T: Numerus>(pesi: &Tensor2D<T>, gradiens: &Tensor1D<T>, intrata: &Tensor1D<T>) -> (r:
    Result<Tensor2D<T>, Erratum>)
    requires
        rectangulum(pesi@, pesi@.len(), pesi.spec_columnae()),
        gradiens@.len() == pesi@.len(),
        intrata@.len() == pesi.spec_columnae(),
    ensures
        r is Ok,
        renovatio_rel(pesi@, gradiens@, intrata@, r->Ok_0@),
        r->Ok_0.spec_columnae() == pesi.spec_columnae(),
        rectangulum(r->Ok_0@, pesi@.len(), pesi.spec_columnae()),
{
    let col = gradiens.transpone();
    let mut ordines: Vec<Vec<T>> = Vec::new();
    ordines.push(exemplar(intrata.materia()));
    let ordo = Tensor2D::ex_vec(ordines)?;
    assert(ordo@ =~= seq![intrata@]);
    let delta = col.productum_matriciale(&ordo)?;
    let r = pesi.adde(&delta)?;
    proof {
        assert forall|i: int| 0 <= i < r@.len() implies (#[trigger] r@[i]).len()
            == pesi@[i].len() by {
            assert(summa_vectorum(pesi@[i], delta@[i], r@[i]));
        }
        assert forall|i: int, j: int|
            0 <= i < r@.len() && 0 <= j < r@[i].len() implies est_incrementi(
            pesi@[i][j],
            gradiens@[i],
            intrata@[j],
            #[trigger] r@[i][j],
        ) by {
            assert(summa_vectorum(pesi@[i], delta@[i], r@[i]));
            assert(pesi@[i].len() == pesi.spec_columnae());
            assert(columna(ordo@, j) =~= seq![intrata@[j]]);
            assert(col@[i] == seq![gradiens@[i]]);
            assert(summa_productorum(col@[i], columna(ordo@, j), ordo@.len(), delta@[i][j]));
            assert(gradus_incrementi(
                pesi@[i][j],
                gradiens@[i],
                intrata@[j],
                delta@[i][j],
                r@[i][j],
            ));
        }
    }
    Ok(r)
}

impl<T: Copy> Clone for Neuronatus<T> {
    fn clone(&self) -> (r: Self)
        ensures
            r@ == self@,
    {
        proof {
            use_type_invariant(self);
        }
        Neuronatus {
            input: self.input,
            hidden: self.hidden,
            output: self.output,
            pesi_ih: self.pesi_ih.clone(),
            pesi_ho: self.pesi_ho.clone(),
            bias_h: self.bias_h.clone(),
            bias_o: self.bias_o.clone(),
            celeritas: self.celeritas,
        }
    }
}

impl<T: Numerus> Neuronatus<T> {
    /// A network of the given topology and learning rate whose weights and
    /// biases are independent random draws.
    pub fn novus(input: usize, hidden: usize, output: usize, celeritas: T) -> (r: Self) where
        Standard: Distribution<T>,

        ensures
            r@.validus(),
            r@.input == input,
            r@.hidden == hidden,
            r@.output == output,
            r@.celeritas == celeritas,
            matrix_fortuita(r@.pesi_ih),
            matrix_fortuita(r@.pesi_ho),
            vector_fortuitus(r@.bias_h),
            vector_fortuitus(r@.bias_o),
    {
        Neuronatus {
            input,
            hidden,
            output,
            pesi_ih: Tensor2D::fortuitus(hidden, input),
            pesi_ho: Tensor2D::fortuitus(output, hidden),
            bias_h: Tensor1D::fortuitus(hidden),
            bias_o: Tensor1D::fortuitus(output),
            celeritas,
        }
    }

    /// The network with the given topology, weights, biases and learning
    /// rate, where the shapes are those the topology fixes.
    pub fn ex_partibus(
        input: usize,
        hidden: usize,
        output: usize,
        pesi_ih: Tensor2D<T>,
        pesi_ho: Tensor2D<T>,
        bias_h: Tensor1D<T>,
        bias_o: Tensor1D<T>,
        celeritas: T,
    ) -> (r: Result<Self, Erratum>)
        ensures
            r is Ok <==> pesi_ih@.len() == hidden && pesi_ih.spec_columnae() == input
                && pesi_ho@.len() == output && pesi_ho.spec_columnae() == hidden && bias_h@.len()
                == hidden && bias_o@.len() == output,
            r is Err ==> r == Err::<Self, Erratum>(Erratum::ShapeError),
            r is Ok ==> r->Ok_0@ == (Status {
                input: input as nat,
                hidden: hidden as nat,
                output: output as nat,
                pesi_ih: pesi_ih@,
                pesi_ho: pesi_ho@,
                bias_h: bias_h@,
                bias_o: bias_o@,
                celeritas,
            }),
    {
        if pesi_ih.ordines() != hidden || pesi_ih.columnae() != input || pesi_ho.ordines() != output
            || pesi_ho.columnae() != hidden || bias_h.magnitudo() != hidden || bias_o.magnitudo()
            != output {
            return Err(Erratum::ShapeError);
        }
        Ok(Neuronatus { input, hidden, output, pesi_ih, pesi_ho, bias_h, bias_o, celeritas })
    }

    /// The length of an input vector.
    pub fn input(&self) -> (r: usize)
        ensures
            r == self@.input,
            self@.validus(),
    {
        proof {
            use_type_invariant(self);
        }
        self.input
    }

    /// The number of hidden neurons.
    pub fn hidden(&self) -> (r: usize)
        ensures
            r == self@.hidden,
            self@.validus(),
    {
        proof {
            use_type_invariant(self);
        }
        self.hidden
    }

    /// The length of an output vector.
    pub fn output(&self) -> (r: usize)
        ensures
            r == self@.output,
            self@.validus(),
    {
        proof {
            use_type_invariant(self);
        }
        self.output
    }

    /// The weights from the input to the hidden layer.
    pub fn pesi_ih(&self) -> (r: &Tensor2D<T>)
        ensures
            r@ == self@.pesi_ih,
            r.spec_columnae() == self@.input,
    {
        proof {
            use_type_invariant(self);
        }
        &self.pesi_ih
    }

    /// The weights from the hidden to the output layer.
    pub fn pesi_ho(&self) -> (r: &Tensor2D<T>)
        ensures
            r@ == self@.pesi_ho,
            r.spec_columnae() == self@.hidden,
    {
        proof {
            use_type_invariant(self);
        }
        &self.pesi_ho
    }

    /// The biases of the hidden layer.
    pub fn bias_h(&self) -> (r: &Tensor1D<T>)
        ensures
            r@ == self@.bias_h,
    {
        &self.bias_h
    }

    /// The biases of the output layer.
    pub fn bias_o(&self) -> (r: &Tensor1D<T>)
        ensures
            r@ == self@.bias_o,
    {
        &self.bias_o
    }

    /// The learning rate.
    pub fn celeritas(&self) -> (r: T)
        ensures
            r == self@.celeritas,
    {
        self.celeritas
    }

    /// The forward pass: the output activations on an input of the length
    /// the topology fixes.
    pub fn praedictio(&self, intrata: &Tensor1D<T>) -> (r: Result<Tensor1D<T>, Erratum>)
        ensures
            r is Ok <==> intrata@.len() == self@.input,
            r is Err ==> r == Err::<Tensor1D<T>, Erratum>(Erratum::ShapeError),
            r is Ok ==> praedictio_rel(self@, intrata@, r->Ok_0@) && r->Ok_0@.len()
                == self@.output,
    {
        proof {
            use_type_invariant(self);
        }
        if intrata.magnitudo() != self.input {
            return Err(Erratum::ShapeError);
        }
        let h = stratum(&self.pesi_ih, &self.bias_h, intrata)?;
        let y = stratum(&self.pesi_ho, &self.bias_o, &h)?;
        assert(gradus_praedictionis(self@, intrata@, h@, y@));
        Ok(y)
    }

    /// One step of online gradient descent on one example. The hidden error
    /// is carried back through the weights as they were before the step.
    /// Where the lengths of the input or the target do not fit the topology,
    /// nothing changes.
    pub fn instruere(&mut self, intrata: &Tensor1D<T>, exspectata: &Tensor1D<T>) -> (r: Result<
        (),
        Erratum,
    >)
        ensures
            r is Ok <==> intrata@.len() == old(self)@.input && exspectata@.len() == old(
                self,
            )@.output,
            r is Err ==> r == Err::<(), Erratum>(Erratum::ShapeError) && final(self)@ == old(
                self,
            )@,
            r is Ok ==> instructio_rel(old(self)@, intrata@, exspectata@, final(self)@),
            final(self)@.validus(),
            final(self)@.eiusdem_formae(old(self)@),
    {
        proof {
            use_type_invariant(&*self);
        }
        if intrata.magnitudo() != self.input || exspectata.magnitudo() != self.output {
            return Err(Erratum::ShapeError);
        }
        let h = stratum(&self.pesi_ih, &self.bias_h, intrata)?;
        let o = stratum(&self.pesi_ho, &self.bias_o, &h)?;
        let e_o = exspectata.minue(&o)?;
        let g_o = gradiens(&o, &e_o, self.celeritas);
        let e_h = retro(&self.pesi_ho, &e_o)?;
        let g_h = gradiens(&h, &e_h, self.celeritas);
        let pesi_ho = renovatio(&self.pesi_ho, &g_o, &h)?;
        let bias_o = self.bias_o.adde(&g_o)?;
        let pesi_ih = renovatio(&self.pesi_ih, &g_h, intrata)?;
        let bias_h = self.bias_h.adde(&g_h)?;
        self.pesi_ho = pesi_ho;
        self.bias_o = bias_o;
        self.pesi_ih = pesi_ih;
        self.bias_h = bias_h;
        assert(gradus_instructionis(
            old(self)@,
            intrata@,
            exspectata@,
            h@,
            o@,
            e_o@,
            g_o@,
            e_h@,
            g_h@,
            self@,
        ));
        Ok(())
    }

    /// Whether the examples of a batch fit the topology: `Ok` where they do,
    /// else the error that training on them gives.
    fn proba_exempla(&self, intratae: &Tensor3D<T>, exspectatae: &Tensor3D<T>) -> (r: Result<
        (),
        Erratum,
    >)
        ensures
            r == Err::<(), Erratum>(Erratum::BatchSizeError) <==> intratae@.len()
                != exspectatae@.len(),
            r == Err::<(), Erratum>(Erratum::ShapeError) <==> intratae@.len() == exspectatae@.len()
                && !(exempla_apta(intratae@, self@.input) && exempla_apta(
                exspectatae@,
                self@.output,
            )),
            r is Err ==> r->Err_0 == Erratum::BatchSizeError || r->Err_0 == Erratum::ShapeError,
            r is Ok && intratae@.len() > 0 ==> intratae.spec_altitudo() >= 1
                && exspectatae.spec_altitudo() >= 1,
    {
        let n = intratae.profunditas();
        if n != exspectatae.profunditas() {
            return Err(Erratum::BatchSizeError);
        }
        if n == 0 {
            return Ok(());
        }
        let altitudo_x = intratae.altitudo();
        let latitudo_x = intratae.latitudo();
        let altitudo_t = exspectatae.altitudo();
        let latitudo_t = exspectatae.latitudo();
        proof {
            assert(rectangulum(intratae@[0], altitudo_x as nat, latitudo_x as nat));
            assert(rectangulum(exspectatae@[0], altitudo_t as nat, latitudo_t as nat));
        }
        if altitudo_x == 0 || latitudo_x != self.input || altitudo_t == 0 || latitudo_t
            != self.output {
            return Err(Erratum::ShapeError);
        }
        proof {
            assert forall|p: int| 0 <= p < intratae@.len() implies (#[trigger] intratae@[p]).len()
                >= 1 && intratae@[p][0].len() == self@.input by {
                assert(rectangulum(intratae@[p], altitudo_x as nat, latitudo_x as nat));
            }
            assert forall|p: int| 0 <= p < exspectatae@.len() implies (
            #[trigger] exspectatae@[p]).len() >= 1 && exspectatae@[p][0].len() == self@.output by {
                assert(rectangulum(exspectatae@[p], altitudo_t as nat, latitudo_t as nat));
            }
        }
        Ok(())
    }

    /// One training step on each example of a batch, in the order of the
    /// examples: the first row of plane `i` of `intratae` is example `i`, the
    /// first row of plane `i` of `exspectatae` its target. Each step starts
    /// from the weights the step before it left. Where the batch is refused,
    /// nothing changes.
    pub fn instruere_batch(&mut self, intratae: &Tensor3D<T>, exspectatae: &Tensor3D<T>) -> (r:
        Result<(), Erratum>)
        ensures
            r == Err::<(), Erratum>(Erratum::BatchSizeError) <==> intratae@.len()
                != exspectatae@.len(),
            r == Err::<(), Erratum>(Erratum::ShapeError) <==> intratae@.len() == exspectatae@.len()
                && !(exempla_apta(intratae@, old(self)@.input) && exempla_apta(
                exspectatae@,
                old(self)@.output,
            )),
            r is Err ==> final(self)@ == old(self)@ && (r->Err_0 == Erratum::BatchSizeError
                || r->Err_0 == Erratum::ShapeError),
            r is Ok ==> series_rel(
                old(self)@,
                intratae@,
                exspectatae@,
                intratae@.len(),
                final(self)@,
            ),
            final(self)@.validus(),
            final(self)@.eiusdem_formae(old(self)@),
    {
        proof {
            use_type_invariant(&*self);
        }
        self.proba_exempla(intratae, exspectatae)?;
        let n = intratae.profunditas();
        let ghost initium = self@;
        let mut index: usize = 0;
        while index < n
            invariant
                n == intratae@.len(),
                n == exspectatae@.len(),
                n > 0 ==> intratae.spec_altitudo() >= 1 && exspectatae.spec_altitudo() >= 1,
                exempla_apta(intratae@, initium.input),
                exempla_apta(exspectatae@, initium.output),
                index <= n,
                self@.validus(),
                self@.eiusdem_formae(initium),
                series_rel(initium, intratae@, exspectatae@, index as nat, self@),
            decreases n - index,
        {
            let ghost medius = self@;
            match (intratae.ordo(index, 0), exspectatae.ordo(index, 0)) {
                (Some(intrata), Some(exspectata)) => {
                    self.instruere(&intrata, &exspectata)?;
                    proof {
                        let proximus = (index + 1) as nat;
                        assert(series_rel(
                            initium,
                            intratae@,
                            exspectatae@,
                            (proximus - 1) as nat,
                            medius,
                        ) && instructio_rel(
                            medius,
                            intratae@[proximus - 1][0],
                            exspectatae@[proximus - 1][0],
                            self@,
                        ));
                    }
                },
                _ => {
                    return Err(Erratum::ShapeError);
                },
            }
            index += 1;
        }
        Ok(())
    }

    /// Training over `epochs` epochs, each one pass over the batch as
    /// `instruere_batch` makes it. Unless `silentium` holds, the loss over the
    /// batch is taken after every hundredth epoch, counted from the first, and
    /// after the last; the result holds these reports in order, each with
    /// the number of its epoch, the first epoch being epoch 0. Where the
    /// batch is refused, nothing changes.
    pub fn disciplina(
        &mut self,
        intratae: &Tensor3D<T>,
        exspectatae: &Tensor3D<T>,
        epochs: usize,
        silentium: bool,
    ) -> (r: Result<Vec<(usize, T)>, Erratum>)
        ensures
            r is Err && r->Err_0 == Erratum::BatchSizeError <==> intratae@.len()
                != exspectatae@.len(),
            r is Err && r->Err_0 == Erratum::ShapeError <==> intratae@.len() == exspectatae@.len()
                && !(exempla_apta(intratae@, old(self)@.input) && exempla_apta(
                exspectatae@,
                old(self)@.output,
            )),
            r is Err ==> final(self)@ == old(self)@ && (r->Err_0 == Erratum::BatchSizeError
                || r->Err_0 == Erratum::ShapeError),
            r is Ok ==> disciplina_rel(
                old(self)@,
                intratae@,
                exspectatae@,
                epochs as nat,
                silentium,
                r->Ok_0@,
                final(self)@,
            ),
            final(self)@.validus(),
            final(self)@.eiusdem_formae(old(self)@),
    {
        proof {
            use_type_invariant(&*self);
        }
        match self.proba_exempla(intratae, exspectatae) {
            Ok(()) => {},
            Err(e) => {
                return Err(e);
            },
        }
        let ghost initium = self@;
        let ghost mut stationes: Seq<Status<T>> = seq![self@];
        let mut nuntii: Vec<(usize, T)> = Vec::new();
        let mut epochon: usize = 0;
        while epochon < epochs
            invariant
                intratae@.len() == exspectatae@.len(),
                exempla_apta(intratae@, initium.input),
                exempla_apta(exspectatae@, initium.output),
                epochon <= epochs,
                self@.validus(),
                self@.eiusdem_formae(initium),
                cursus_rel(initium, intratae@, exspectatae@, epochon as nat, stationes),
                stationes[epochon as int] == self@,
                silentium ==> nuntii@.len() == 0,
                !silentium ==> nuntii_rel(
                    stationes,
                    intratae@,
                    exspectatae@,
                    epochs as nat,
                    epochon as nat,
                    nuntii@,
                ),
            decreases epochs - epochon,
        {
            let ghost stationes_priores = stationes;
            let ghost nuntii_priores = nuntii@;
            match self.instruere_batch(intratae, exspectatae) {
                Ok(()) => {},
                Err(e) => {
                    return Err(e);
                },
            }
            proof {
                stationes = stationes_priores.push(self@);
                assert forall|e: int| 0 <= e < epochon + 1 implies #[trigger] epochon_rel(
                    stationes,
                    intratae@,
                    exspectatae@,
                    e,
                ) by {
                    if e < epochon {
                        assert(epochon_rel(stationes_priores, intratae@, exspectatae@, e));
                    }
                }
            }
            if !silentium && (epochon % 100 == 0 || epochon == epochs - 1) {
                assert(exspectatae@.take(intratae@.len() as int) == exspectatae@);
                let perditio = match self.perditio_batch(intratae, exspectatae) {
                    Ok(p) => p,
                    Err(e) => {
                        return Err(e);
                    },
                };
                nuntii.push((epochon, perditio));
                proof {
                    assert(nuntii@[nuntii_priores.len() as int].0 == epochon);
                    assert forall|e: nat|
                        e < epochon + 1 && #[trigger] nuntiandum(e, epochs as nat) implies exists|
                        k: int,
                    |
                        0 <= k < nuntii@.len() && (#[trigger] nuntii@[k]).0 == e by {
                        if e < epochon {
                            let k = choose|k: int|
                                0 <= k < nuntii_priores.len() && (#[trigger] nuntii_priores[k]).0
                                    == e;
                            assert(nuntii@[k].0 == e);
                        }
                    }
                    assert forall|k: int| 0 <= k < nuntii@.len() implies (#[trigger] nuntii@[k]).0
                        < epochon + 1 && nuntiandum(nuntii@[k].0 as nat, epochs as nat)
                        && perditio_batch_rel(
                        stationes[nuntii@[k].0 + 1],
                        intratae@,
                        exspectatae@,
                        nuntii@[k].1,
                    ) by {
                        if k < nuntii_priores.len() {
                            assert(nuntii@[k] == nuntii_priores[k]);
                        }
                    }
                    assert forall|j: int, k: int| 0 <= j < k < nuntii@.len() implies (
                    #[trigger] nuntii@[j]).0 < (#[trigger] nuntii@[k]).0 by {
                        assert(nuntii@[j] == nuntii_priores[j]);
                        if k < nuntii_priores.len() {
                            assert(nuntii@[k] == nuntii_priores[k]);
                        }
                    }
                }
            } else {
                proof {
                    if !silentium {
                        assert forall|k: int| 0 <= k < nuntii@.len() implies (
                        #[trigger] nuntii@[k]).0 < epochon + 1 && nuntiandum(
                            nuntii@[k].0 as nat,
                            epochs as nat,
                        ) && perditio_batch_rel(
                            stationes[nuntii@[k].0 + 1],
                            intratae@,
                            exspectatae@,
                            nuntii@[k].1,
                        ) by {
                            let e = nuntii@[k].0;
                            assert(stationes[e + 1] == stationes_priores[e + 1]);
                        }
                    }
                }
            }
            epochon += 1;
        }
        assert(gradus_disciplinae(
            initium,
            intratae@,
            exspectatae@,
            epochs as nat,
            silentium,
            stationes,
            nuntii@,
            self@,
        ));
        Ok(nuntii)
    }

    /// The mean squared error of `a` against `b`, two vectors of one length:
    /// the sum of the squared differences, accumulated from the neutral
    /// element in the order of the indices, divided by the number of
    /// elements.
    pub fn perditio_mse(a: &Tensor1D<T>, b: &Tensor1D<T>) -> (r: Result<T, Erratum>)
        ensures
            r is Ok <==> a@.len() == b@.len(),
            r is Err ==> r == Err::<T, Erratum>(Erratum::ShapeError),
            r is Ok ==> perditio_rel(a@, b@, r->Ok_0),
    {
        let n = a.magnitudo();
        if n != b.magnitudo() {
            return Err(Erratum::ShapeError);
        }
        let x = a.materia();
        let y = b.materia();
        let mut acc = T::nullum();
        let mut i: usize = 0;
        while i < n
            invariant
                n == x@.len(),
                n == y@.len(),
                i <= n,
                summa_quadratorum(x@, y@, i as nat, acc),
            decreases n - i,
        {
            let d = x[i].differentia(y[i]);
            let q = d.productum(d);
            let proximus = acc.summa(q);
            assert(summa_quadratorum(x@, y@, i as nat, acc) && est_differentia(
                x@[i as int],
                y@[i as int],
                d,
            ) && est_productum(d, d, q) && est_summa(acc, q, proximus));
            acc = proximus;
            i += 1;
        }
        let numerus = T::ex_numero(n);
        let r = acc.quotiens(numerus);
        assert(gradus_perditionis(a@, b@, acc, numerus, r));
        Ok(r)
    }

    /// The loss over a batch: the mean, over the examples, of the mean
    /// squared error of the output on an example against its target. The
    /// examples are laid out as for `instruere_batch`. There may be more
    /// targets than examples: those beyond the last example are not read.
    /// The batch is refused with `BatchSizeError` where there are fewer
    /// targets than examples, and with `ShapeError` where an example or a
    /// target that is read does not fit the topology.
    pub fn perditio_batch(&self, intratae: &Tensor3D<T>, exspectatae: &Tensor3D<T>) -> (r: Result<
        T,
        Erratum,
    >)
        ensures
            r == Err::<T, Erratum>(Erratum::BatchSizeError) <==> exspectatae@.len()
                < intratae@.len(),
            r == Err::<T, Erratum>(Erratum::ShapeError) <==> intratae@.len() <= exspectatae@.len()
                && !(exempla_apta(intratae@, self@.input) && exempla_apta(
                exspectatae@.take(intratae@.len() as int),
                self@.output,
            )),
            r is Err ==> r->Err_0 == Erratum::BatchSizeError || r->Err_0 == Erratum::ShapeError,
            r is Ok ==> perditio_batch_rel(self@, intratae@, exspectatae@, r->Ok_0),
    {
        proof {
            use_type_invariant(self);
        }
        let n = intratae.profunditas();
        if exspectatae.profunditas() < n {
            return Err(Erratum::BatchSizeError);
        }
        let ghost lecta = exspectatae@.take(n as int);
        if n > 0 {
            let altitudo_x = intratae.altitudo();
            let latitudo_x = intratae.latitudo();
            let altitudo_t = exspectatae.altitudo();
            let latitudo_t = exspectatae.latitudo();
            proof {
                assert(rectangulum(intratae@[0], altitudo_x as nat, latitudo_x as nat));
                assert(rectangulum(exspectatae@[0], altitudo_t as nat, latitudo_t as nat));
                assert(lecta[0] == exspectatae@[0]);
            }
            if altitudo_x == 0 || latitudo_x != self.input || altitudo_t == 0 || latitudo_t
                != self.output {
                return Err(Erratum::ShapeError);
            }
            proof {
                assert forall|p: int| 0 <= p < intratae@.len() implies (
                #[trigger] intratae@[p]).len() >= 1 && intratae@[p][0].len() == self@.input by {
                    assert(rectangulum(intratae@[p], altitudo_x as nat, latitudo_x as nat));
                }
                assert forall|p: int| 0 <= p < lecta.len() implies (#[trigger] lecta[p]).len() >= 1
                    && lecta[p][0].len() == self@.output by {
                    assert(lecta[p] == exspectatae@[p]);
                    assert(rectangulum(exspectatae@[p], altitudo_t as nat, latitudo_t as nat));
                }
            }
        }
        let mut totalis = T::nullum();
        let mut i: usize = 0;
        while i < n
            invariant
                n == intratae@.len(),
                n <= exspectatae@.len(),
                n > 0 ==> intratae.spec_altitudo() >= 1 && exspectatae.spec_altitudo() >= 1,
                lecta == exspectatae@.take(n as int),
                exempla_apta(intratae@, self@.input),
                exempla_apta(lecta, self@.output),
                i <= n,
                summa_perditionum(self@, intratae@, exspectatae@, i as nat, totalis),
            decreases n - i,
        {
            assert(lecta[i as int] == exspectatae@[i as int]);
            match (intratae.ordo(i, 0), exspectatae.ordo(i, 0)) {
                (Some(intrata), Some(exspectata)) => {
                    let praedictum = self.praedictio(&intrata)?;
                    let perditio = Self::perditio_mse(&praedictum, &exspectata)?;
                    let proximus = totalis.summa(perditio);
                    proof {
                        let k = (i + 1) as nat;
                        assert(summa_perditionum(
                            self@,
                            intratae@,
                            exspectatae@,
                            (k - 1) as nat,
                            totalis,
                        ) && praedictio_rel(self@, intratae@[k - 1][0], praedictum@)
                            && perditio_rel(praedictum@, exspectatae@[k - 1][0], perditio)
                            && est_summa(totalis, perditio, proximus));
                    }
                    totalis = proximus;
                },
                _ => {
                    return Err(Erratum::ShapeError);
                },
            }
            i += 1;
        }
        let numerus = T::ex_numero(n);
        let r = totalis.quotiens(numerus);
        assert(gradus_perditionis_batch(self@, intratae@, exspectatae@, totalis, numerus, r));
        Ok(r)
    }
}

/// Every element of an output of the forward pass is a value of the
/// logistic function, and there is one for each output neuron.
pub proof fn lex_praedictio_sigmoidea<T: Numerus>(s: Status<T>, x: Seq<T>, y: Seq<T>)
    requires
        praedictio_rel(s, x, y),
    ensures
        y.len() == s.pesi_ho.len(),
        forall|i: int| 0 <= i < y.len() ==> est_valor_sigmoidis(#[trigger] y[i]),
{
    let h = choose|h: Seq<T>| gradus_praedictionis(s, x, h, y);
    assert forall|i: int| 0 <= i < y.len() implies est_valor_sigmoidis(#[trigger] y[i]) by {
        assert(est_neuronis(s.pesi_ho[i], s.bias_o[i], h, y[i]));
        let (d, z) = choose|d: T, z: T| gradus_neuronis(s.pesi_ho[i], s.bias_o[i], h, d, z, y[i]);
        assert(est_sigmoide(z, y[i]));
    }
}

/// Training on a batch of one example is one training step on it.
pub proof fn lex_series_unius<T: Numerus>(
    s: Status<T>,
    xs: Seq<Seq<Seq<T>>>,
    ts: Seq<Seq<Seq<T>>>,
    post: Status<T>,
)
    ensures
        series_rel(s, xs, ts, 1, post) <==> instructio_rel(s, xs[0][0], ts[0][0], post),
{
    reveal_with_fuel(series_rel, 2);
    if instructio_rel(s, xs[0][0], ts[0][0], post) {
        assert(series_rel(s, xs, ts, 0, s) && instructio_rel(s, xs[1 - 1][0], ts[1 - 1][0], post));
    }
}

/// Training on the first `n + 1` examples of a batch is training on the
/// first `n`, then one training step on example `n` from the state that
/// training left.
pub proof fn lex_series_proxima<T: Numerus>(
    s: Status<T>,
    xs: Seq<Seq<Seq<T>>>,
    ts: Seq<Seq<Seq<T>>>,
    n: nat,
    post: Status<T>,
)
    ensures
        series_rel(s, xs, ts, n + 1, post) <==> exists|medius: Status<T>|
            series_rel(s, xs, ts, n, medius) && #[trigger] instructio_rel(
                medius,
                xs[n as int][0],
                ts[n as int][0],
                post,
            ),
{
    let proximus = n + 1;
    if series_rel(s, xs, ts, proximus, post) {
        let medius = choose|medius: Status<T>|
            series_rel(s, xs, ts, (proximus - 1) as nat, medius) && #[trigger] instructio_rel(
                medius,
                xs[proximus - 1][0],
                ts[proximus - 1][0],
                post,
            );
        assert(series_rel(s, xs, ts, n, medius) && instructio_rel(
            medius,
            xs[n as int][0],
            ts[n as int][0],
            post,
        ));
    }
    if exists|medius: Status<T>|
        series_rel(s, xs, ts, n, medius) && #[trigger] instructio_rel(
            medius,
            xs[n as int][0],
            ts[n as int][0],
            post,
        ) {
        let medius = choose|medius: Status<T>|
            series_rel(s, xs, ts, n, medius) && #[trigger] instructio_rel(
                medius,
                xs[n as int][0],
                ts[n as int][0],
                post,
            );
        assert(series_rel(s, xs, ts, (proximus - 1) as nat, medius) && instructio_rel(
            medius,
            xs[proximus - 1][0],
            ts[proximus - 1][0],
            post,
        ));
    }
}

/// The arithmetic of the scalars of `a` is exact where the error of `a`
/// against itself needs it: an element minus itself is the neutral element,
/// and so are the square of the neutral element, the sum of two neutral
/// elements, and the neutral element divided by the number of elements.
pub open spec fn arithmetica_nulli<T: Numerus>(a: Seq<T>) -> bool {
    &&& forall|i: int, d: T|
        0 <= i < a.len() && #[trigger] est_differentia(a[i], a[i], d) ==> est_nullum(d)
    &&& forall|z: T, q: T| est_nullum(z) && #[trigger] est_productum(z, z, q) ==> est_nullum(q)
    &&& forall|p: T, q: T, r: T|
        est_nullum(p) && est_nullum(q) && #[trigger] est_summa(p, q, r) ==> est_nullum(r)
    &&& forall|z: T, n: T, r: T|
        est_nullum(z) && est_ex_numero(a.len() as usize, n) && #[trigger] est_quotiens(z, n, r)
            ==> est_nullum(r)
}

/// A sum of the squared differences of a vector and itself is the neutral
/// element, where the arithmetic of its scalars is exact.
proof fn lemma_summa_quadratorum_sui<T: Numerus>(a: Seq<T>, n: nat, s: T)
    requires
        arithmetica_nulli(a),
        n <= a.len(),
        summa_quadratorum(a, a, n, s),
    ensures
        est_nullum(s),
    decreases n,
{
    if n > 0 {
        let (p, d, q) = choose|p: T, d: T, q: T|
            #![trigger est_summa(p, q, s), est_productum(d, d, q)]
            summa_quadratorum(a, a, (n - 1) as nat, p) && est_differentia(a[n - 1], a[n - 1], d)
                && est_productum(d, d, q) && est_summa(p, q, s);
        lemma_summa_quadratorum_sui(a, (n - 1) as nat, p);
    }
}

/// The mean squared error of a vector against itself is the neutral element,
/// where the arithmetic of its scalars is exact.
pub proof fn lex_perditio_sui<T: Numerus>(a: Seq<T>, r: T)
    requires
        arithmetica_nulli(a),
        perditio_rel(a, a, r),
    ensures
        est_nullum(r),
{
    let (s, n) = choose|s: T, n: T| gradus_perditionis(a, a, s, n, r);
    lemma_summa_quadratorum_sui(a, a.len(), s);
}

/// Where the operations of the scalar are functions, a neuron has one
/// activation only.
proof fn lemma_neuronis_certi<T: Numerus>(w: Seq<T>, b: T, x: Seq<T>, y: T, v: T)
    requires
        arithmetica_certa::<T>(),
        est_neuronis(w, b, x, y),
        est_neuronis(w, b, x, v),
    ensures
        y == v,
{
    let (d1, z1) = choose|d: T, z: T| gradus_neuronis(w, b, x, d, z, y);
    let (d2, z2) = choose|d: T, z: T| gradus_neuronis(w, b, x, d, z, v);
    lex_summa_productorum_certa(w, x, x.len(), d1, d2);
    assert(z1 == z2);
    lex_sigmoide_certa(z1, y, v);
}

/// Where the operations of the scalar are functions, a layer has one vector
/// of activations only.
proof fn lemma_stratum_certum<T: Numerus>(
    w: Seq<Seq<T>>,
    b: Seq<T>,
    x: Seq<T>,
    y: Seq<T>,
    v: Seq<T>,
)
    requires
        arithmetica_certa::<T>(),
        stratum_rel(w, b, x, y),
        stratum_rel(w, b, x, v),
    ensures
        y == v,
{
    assert forall|i: int| 0 <= i < y.len() implies y[i] == v[i] by {
        assert(est_neuronis(w[i], b[i], x, y[i]) && est_neuronis(w[i], b[i], x, v[i]));
        lemma_neuronis_certi(w[i], b[i], x, y[i], v[i]);
    }
    assert(y =~= v);
}

/// The forward pass is a function of the network and the input, where the
/// operations of the scalar are functions: two outputs on one input are
/// equal, and so are the outputs of two networks that hold the same values.
pub proof fn lex_praedictio_certa<T: Numerus>(s: Status<T>, x: Seq<T>, y: Seq<T>, v: Seq<T>)
    requires
        arithmetica_certa::<T>(),
        praedictio_rel(s, x, y),
        praedictio_rel(s, x, v),
    ensures
        y == v,
{
    let h1 = choose|h: Seq<T>| gradus_praedictionis(s, x, h, y);
    let h2 = choose|h: Seq<T>| gradus_praedictionis(s, x, h, v);
    lemma_stratum_certum(s.pesi_ih, s.bias_h, x, h1, h2);
    lemma_stratum_certum(s.pesi_ho, s.bias_o, h1, y, v);
}

/// Where the operations of the scalar are functions, a layer has one vector
/// of gradients only.
proof fn lemma_gradiens_certus<T: Numerus>(a: Seq<T>, e: Seq<T>, c: T, g: Seq<T>, f: Seq<T>)
    requires
        arithmetica_certa::<T>(),
        gradiens_rel(a, e, c, g),
        gradiens_rel(a, e, c, f),
    ensures
        g == f,
{
    assert forall|i: int| 0 <= i < g.len() implies g[i] == f[i] by {
        assert(est_gradientis(a[i], e[i], c, g[i]) && est_gradientis(a[i], e[i], c, f[i]));
        let (d1, p1) = choose|d: T, p: T| gradus_gradientis(a[i], e[i], c, d, p, g[i]);
        let (d2, p2) = choose|d: T, p: T| gradus_gradientis(a[i], e[i], c, d, p, f[i]);
        lex_derivata_certa(a[i], d1, d2);
        assert(p1 == p2);
    }
    assert(g =~= f);
}

/// Where the operations of the scalar are functions, an error has one image
/// only when it is carried back through the weights of a layer.
proof fn lemma_retro_certum<T: Numerus>(
    w: Seq<Seq<T>>,
    columnae: nat,
    e: Seq<T>,
    r: Seq<T>,
    q: Seq<T>,
)
    requires
        arithmetica_certa::<T>(),
        retro_rel(w, columnae, e, r),
        retro_rel(w, columnae, e, q),
    ensures
        r == q,
{
    assert forall|j: int| 0 <= j < r.len() implies r[j] == q[j] by {
        lex_summa_productorum_certa(columna(w, j), e, e.len(), r[j], q[j]);
    }
    assert(r =~= q);
}

/// Where the operations of the scalar are functions, the weights of a layer
/// have one value only after an update.
proof fn lemma_renovatio_certa<T: Numerus>(
    w: Seq<Seq<T>>,
    g: Seq<T>,
    v: Seq<T>,
    r: Seq<Seq<T>>,
    q: Seq<Seq<T>>,
)
    requires
        arithmetica_certa::<T>(),
        renovatio_rel(w, g, v, r),
        renovatio_rel(w, g, v, q),
    ensures
        r == q,
{
    assert forall|i: int| 0 <= i < r.len() implies r[i] == q[i] by {
        assert(r[i].len() == w[i].len() && q[i].len() == w[i].len());
        assert forall|j: int| 0 <= j < r[i].len() implies r[i][j] == q[i][j] by {
            assert(est_incrementi(w[i][j], g[i], v[j], r[i][j]));
            assert(est_incrementi(w[i][j], g[i], v[j], q[i][j]));
            let d1 = choose|d: T| gradus_incrementi(w[i][j], g[i], v[j], d, r[i][j]);
            let d2 = choose|d: T| gradus_incrementi(w[i][j], g[i], v[j], d, q[i][j]);
            lex_summa_productorum_certa(seq![g[i]], seq![v[j]], 1, d1, d2);
        }
        assert(r[i] =~= q[i]);
    }
    assert(r =~= q);
}

/// A training step is a function of the network, the input and the target,
/// where the operations of the scalar are functions: the step leaves one
/// state only.
pub proof fn lex_instructio_certa<T: Numerus>(
    s: Status<T>,
    x: Seq<T>,
    t: Seq<T>,
    post: Status<T>,
    alter: Status<T>,
)
    requires
        arithmetica_certa::<T>(),
        instructio_rel(s, x, t, post),
        instructio_rel(s, x, t, alter),
    ensures
        post == alter,
{
    let (h1, o1, e1, g1, f1, k1) = choose|
        h: Seq<T>,
        o: Seq<T>,
        e_o: Seq<T>,
        g_o: Seq<T>,
        e_h: Seq<T>,
        g_h: Seq<T>,
    | gradus_instructionis(s, x, t, h, o, e_o, g_o, e_h, g_h, post);
    let (h2, o2, e2, g2, f2, k2) = choose|
        h: Seq<T>,
        o: Seq<T>,
        e_o: Seq<T>,
        g_o: Seq<T>,
        e_h: Seq<T>,
        g_h: Seq<T>,
    | gradus_instructionis(s, x, t, h, o, e_o, g_o, e_h, g_h, alter);
    lemma_stratum_certum(s.pesi_ih, s.bias_h, x, h1, h2);
    lemma_stratum_certum(s.pesi_ho, s.bias_o, h1, o1, o2);
    assert(e1 =~= e2) by {
        assert forall|i: int| 0 <= i < e1.len() implies e1[i] == e2[i] by {
            assert(est_differentia(t[i], o1[i], e1[i]) && est_differentia(t[i], o1[i], e2[i]));
        }
    }
    lemma_gradiens_certus(o1, e1, s.celeritas, g1, g2);
    lemma_retro_certum(s.pesi_ho, s.hidden, e1, f1, f2);
    lemma_gradiens_certus(h1, f1, s.celeritas, k1, k2);
    lemma_renovatio_certa(s.pesi_ho, g1, h1, post.pesi_ho, alter.pesi_ho);
    lex_summa_vectorum_certa(s.bias_o, g1, post.bias_o, alter.bias_o);
    lemma_renovatio_certa(s.pesi_ih, k1, x, post.pesi_ih, alter.pesi_ih);
    lex_summa_vectorum_certa(s.bias_h, k1, post.bias_h, alter.bias_h);
}

/// Training on a batch is a function of the network and the batch, where the
/// operations of the scalar are functions: the steps leave one state only.
pub proof fn lex_series_certa<T: Numerus>(
    s: Status<T>,
    xs: Seq<Seq<Seq<T>>>,
    ts: Seq<Seq<Seq<T>>>,
    n: nat,
    post: Status<T>,
    alter: Status<T>,
)
    requires
        arithmetica_certa::<T>(),
        series_rel(s, xs, ts, n, post),
        series_rel(s, xs, ts, n, alter),
    ensures
        post == alter,
    decreases n,
{
    if n > 0 {
        let m1 = choose|medius: Status<T>|
            series_rel(s, xs, ts, (n - 1) as nat, medius) && #[trigger] instructio_rel(
                medius,
                xs[n - 1][0],
                ts[n - 1][0],
                post,
            );
        let m2 = choose|medius: Status<T>|
            series_rel(s, xs, ts, (n - 1) as nat, medius) && #[trigger] instructio_rel(
                medius,
                xs[n - 1][0],
                ts[n - 1][0],
                alter,
            );
        lex_series_certa(s, xs, ts, (n - 1) as nat, m1, m2);
        lex_instructio_certa(m1, xs[n - 1][0], ts[n - 1][0], post, alter);
    }
}

} // verus!
