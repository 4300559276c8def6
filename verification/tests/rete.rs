use mininervus::erratum::Erratum;
use mininervus::neuronatus::Neuronatus;
use mininervus::numerus::Numerus;
use mininervus::tensor::{Tensor1D, Tensor2D, Tensor3D};
use rand::distributions::{Distribution, Standard};
use rand::Rng;

/// A double-precision scalar.
#[derive(Debug, Clone, Copy, PartialEq)]
struct R(f64);

impl Numerus for R {
    fn nullum() -> Self {
        R(0.0)
    }

    fn unum() -> Self {
        R(1.0)
    }

    fn ex_numero(n: usize) -> Self {
        R(n as f64)
    }

    fn summa(self, alter: Self) -> Self {
        R(self.0 + alter.0)
    }

    fn differentia(self, alter: Self) -> Self {
        R(self.0 - alter.0)
    }

    fn productum(self, alter: Self) -> Self {
        R(self.0 * alter.0)
    }

    fn quotiens(self, alter: Self) -> Self {
        R(self.0 / alter.0)
    }

    fn negatio(self) -> Self {
        R(-self.0)
    }

    fn exponentialis(self) -> Self {
        R(self.0.exp())
    }
}

impl Distribution<R> for Standard {
    fn sample<G: Rng + ?Sized>(&self, rng: &mut G) -> R {
        R(rng.gen())
    }
}

fn vector(valores: Vec<f64>) -> Vec<R> {
    valores.into_iter().map(R).collect()
}

fn matrix(valores: Vec<Vec<f64>>) -> Vec<Vec<R>> {
    valores.into_iter().map(vector).collect()
}

fn cubus(valores: Vec<Vec<Vec<f64>>>) -> Vec<Vec<Vec<R>>> {
    valores.into_iter().map(matrix).collect()
}

fn rete_ex_valoribus(
    pesi_ih: Vec<Vec<f64>>,
    pesi_ho: Vec<Vec<f64>>,
    bias_h: Vec<f64>,
    bias_o: Vec<f64>,
    celeritas: f64,
) -> Neuronatus<R> {
    let input = pesi_ih[0].len();
    let hidden = pesi_ih.len();
    let output = pesi_ho.len();
    Neuronatus::ex_partibus(
        input,
        hidden,
        output,
        Tensor2D::ex_vec(matrix(pesi_ih)).unwrap(),
        Tensor2D::ex_vec(matrix(pesi_ho)).unwrap(),
        Tensor1D::ex_vec(vector(bias_h)),
        Tensor1D::ex_vec(vector(bias_o)),
        R(celeritas),
    )
    .unwrap()
}

fn rete_xor() -> Neuronatus<R> {
    rete_ex_valoribus(
        vec![vec![0.7, 0.6], vec![0.8, 0.5]],
        vec![vec![0.9, 0.5]],
        vec![0.5, 0.7],
        vec![0.2],
        0.5,
    )
}

fn exempla_xor() -> (Tensor3D<R>, Tensor3D<R>) {
    let intratae = Tensor3D::ex_vec(cubus(vec![
        vec![vec![0.0, 0.0]],
        vec![vec![0.0, 1.0]],
        vec![vec![1.0, 0.0]],
        vec![vec![1.0, 1.0]],
    ]))
    .unwrap();
    let exspectatae = Tensor3D::ex_vec(cubus(vec![
        vec![vec![0.0]],
        vec![vec![1.0]],
        vec![vec![1.0]],
        vec![vec![0.0]],
    ]))
    .unwrap();
    (intratae, exspectatae)
}

fn prope(a: f64, b: f64) -> bool {
    (a - b).abs() <= 1e-12
}

#[test]
fn rete_novum_formam_topologiae_habet() {
    let rete = Neuronatus::<R>::novus(2, 3, 1, R(0.5));
    assert_eq!(rete.input(), 2);
    assert_eq!(rete.hidden(), 3);
    assert_eq!(rete.output(), 1);
    assert_eq!(rete.celeritas(), R(0.5));
    assert_eq!(rete.pesi_ih().ordines(), 3);
    assert_eq!(rete.pesi_ih().columnae(), 2);
    assert_eq!(rete.pesi_ho().ordines(), 1);
    assert_eq!(rete.pesi_ho().columnae(), 3);
    assert_eq!(rete.bias_h().magnitudo(), 3);
    assert_eq!(rete.bias_o().magnitudo(), 1);
    for ordo in rete.pesi_ih().materia() {
        assert!(ordo.iter().all(|x| 0.0 <= x.0 && x.0 < 1.0));
    }
    assert!(rete.bias_h().materia().iter().all(|x| 0.0 <= x.0 && x.0 < 1.0));
}

#[test]
fn ex_partibus_formas_ineptas_recusat() {
    let para = |ih_ord: usize, ih_col: usize, ho_ord: usize, ho_col: usize, bh: usize, bo: usize| {
        Neuronatus::<R>::ex_partibus(
            2,
            3,
            1,
            Tensor2D::nullus(ih_ord, ih_col),
            Tensor2D::nullus(ho_ord, ho_col),
            Tensor1D::nullus(bh),
            Tensor1D::nullus(bo),
            R(0.1),
        )
    };
    assert!(para(3, 2, 1, 3, 3, 1).is_ok());
    assert_eq!(para(2, 2, 1, 3, 3, 1).err(), Some(Erratum::ShapeError));
    assert_eq!(para(3, 3, 1, 3, 3, 1).err(), Some(Erratum::ShapeError));
    assert_eq!(para(3, 2, 2, 3, 3, 1).err(), Some(Erratum::ShapeError));
    assert_eq!(para(3, 2, 1, 2, 3, 1).err(), Some(Erratum::ShapeError));
    assert_eq!(para(3, 2, 1, 3, 2, 1).err(), Some(Erratum::ShapeError));
    assert_eq!(para(3, 2, 1, 3, 3, 2).err(), Some(Erratum::ShapeError));
}

#[test]
fn praedictio_ponderum_nullorum() {
    let rete = Neuronatus::<R>::ex_partibus(
        3,
        2,
        2,
        Tensor2D::nullus(2, 3),
        Tensor2D::nullus(2, 2),
        Tensor1D::nullus(2),
        Tensor1D::nullus(2),
        R(0.1),
    )
    .unwrap();
    let exitus = rete.praedictio(&Tensor1D::ex_vec(vector(vec![4.0, -1.0, 9.0]))).unwrap();
    assert_eq!(exitus.materia(), &vector(vec![0.5, 0.5]));
}

#[test]
fn praedictio_valores_notos_dat() {
    let rete = rete_xor();
    let exspectata =
        [0.7491919432317818, 0.7789394186064262, 0.7859123132593753, 0.8041965855970046];
    let intratae = [[0.0, 0.0], [0.0, 1.0], [1.0, 0.0], [1.0, 1.0]];
    for i in 0..4 {
        let exitus = rete.praedictio(&Tensor1D::ex_vec(vector(intratae[i].to_vec()))).unwrap();
        assert_eq!(exitus.magnitudo(), 1);
        assert!(prope(exitus.materia()[0].0, exspectata[i]));
    }
}

#[test]
fn praedictio_longitudinem_ineptam_recusat() {
    let rete = rete_xor();
    let longior = Tensor1D::ex_vec(vector(vec![1.0, 0.0, 1.0]));
    let brevior = Tensor1D::ex_vec(vector(vec![1.0]));
    assert_eq!(rete.praedictio(&longior), Err(Erratum::ShapeError));
    assert_eq!(rete.praedictio(&brevior), Err(Erratum::ShapeError));
}

#[test]
fn praedictio_intra_unitatem_manet() {
    for _ in 0..20 {
        let rete = Neuronatus::<R>::novus(3, 4, 2, R(0.3));
        for intrata in [vec![0.0, 0.0, 0.0], vec![5.0, -3.0, 2.5], vec![-20.0, -20.0, -20.0]] {
            let exitus = rete.praedictio(&Tensor1D::ex_vec(vector(intrata))).unwrap();
            assert_eq!(exitus.magnitudo(), 2);
            assert!(exitus.materia().iter().all(|y| 0.0 < y.0 && y.0 < 1.0));
        }
    }
}

fn derivata(x: f64) -> f64 {
    let s = 1.0 / (1.0 + (-x).exp());
    s * (1.0 - s)
}

#[test]
fn instruere_gradus_ponderum_nullorum() {
    let mut rete = rete_ex_valoribus(vec![vec![0.0]], vec![vec![0.0]], vec![0.0], vec![0.0], 1.0);
    let intrata = Tensor1D::ex_vec(vector(vec![1.0]));
    let exspectata = Tensor1D::ex_vec(vector(vec![1.0]));
    assert_eq!(rete.instruere(&intrata, &exspectata), Ok(()));

    let gradiens = derivata(0.5) * (1.0 - 0.5) * 1.0;
    assert_eq!(rete.bias_o().materia(), &vector(vec![0.0 + gradiens]));
    assert_eq!(rete.pesi_ho().materia(), &matrix(vec![vec![0.0 + (0.0 + gradiens * 0.5)]]));
    assert!((rete.bias_o().materia()[0].0 - 0.1175018561).abs() < 1e-9);
    assert!((rete.pesi_ho().materia()[0][0].0 - 0.05875092805).abs() < 1e-9);
    assert_eq!(rete.pesi_ih().materia(), &matrix(vec![vec![0.0]]));
    assert_eq!(rete.bias_h().materia(), &vector(vec![0.0]));
}

#[test]
fn instruere_gradus_exactus() {
    let mut rete = rete_ex_valoribus(vec![vec![0.0]], vec![vec![2.0]], vec![0.0], vec![-1.0], 1.0);
    let intrata = Tensor1D::ex_vec(vector(vec![1.0]));
    let exspectata = Tensor1D::ex_vec(vector(vec![1.0]));
    assert_eq!(rete.praedictio(&intrata).unwrap().materia(), &vector(vec![0.5]));

    assert_eq!(rete.instruere(&intrata, &exspectata), Ok(()));

    let error_o = 1.0 - 0.5;
    let gradiens_o = derivata(0.5) * error_o * 1.0;
    let error_h = 0.0 + 2.0 * error_o;
    let gradiens_h = derivata(0.5) * error_h * 1.0;
    assert_eq!(rete.pesi_ho().materia(), &matrix(vec![vec![2.0 + (0.0 + gradiens_o * 0.5)]]));
    assert_eq!(rete.bias_o().materia(), &vector(vec![-1.0 + gradiens_o]));
    assert_eq!(rete.pesi_ih().materia(), &matrix(vec![vec![0.0 + (0.0 + gradiens_h * 1.0)]]));
    assert_eq!(rete.bias_h().materia(), &vector(vec![0.0 + gradiens_h]));
    assert!(prope(rete.pesi_ho().materia()[0][0].0, 2.0587509280503986));
    assert!(prope(rete.bias_o().materia()[0].0, -0.8824981438992028));
    assert!(prope(rete.pesi_ih().materia()[0][0].0, 0.2350037122015945));
    assert!(prope(rete.bias_h().materia()[0].0, 0.2350037122015945));
    assert_eq!(rete.celeritas(), R(1.0));
    assert_eq!((rete.input(), rete.hidden(), rete.output()), (1, 1, 1));
}

#[test]
fn instruere_gradus_notus() {
    let mut rete = rete_xor();
    let intrata = Tensor1D::ex_vec(vector(vec![0.0, 1.0]));
    let exspectata = Tensor1D::ex_vec(vector(vec![1.0]));
    rete.instruere(&intrata, &exspectata).unwrap();

    let pesi_ih = [[0.7, 0.6216735766773523], [0.8, 0.5119614300760351]];
    let pesi_ho = [[0.9178795886811804, 0.5183148576310826]];
    let bias_h = [0.5216735766773524, 0.7119614300760351];
    let bias_o = [0.22383118674156083];
    for i in 0..2 {
        for j in 0..2 {
            assert!(prope(rete.pesi_ih().materia()[i][j].0, pesi_ih[i][j]));
        }
        assert!(prope(rete.pesi_ho().materia()[0][i].0, pesi_ho[0][i]));
        assert!(prope(rete.bias_h().materia()[i].0, bias_h[i]));
    }
    assert!(prope(rete.bias_o().materia()[0].0, bias_o[0]));
    assert_eq!(rete.pesi_ih().materia()[0][0], R(0.7));
    assert_eq!(rete.pesi_ih().materia()[1][0], R(0.8));
}

#[test]
fn instruere_longitudines_ineptas_recusat() {
    let mut rete = rete_xor();
    let prius = rete.clone();
    let intrata = Tensor1D::ex_vec(vector(vec![0.0, 1.0]));
    let exspectata = Tensor1D::ex_vec(vector(vec![1.0]));
    let inepta = Tensor1D::ex_vec(vector(vec![1.0, 0.0, 1.0]));
    assert_eq!(rete.instruere(&inepta, &exspectata), Err(Erratum::ShapeError));
    assert_eq!(rete, prius);
    assert_eq!(rete.instruere(&intrata, &inepta), Err(Erratum::ShapeError));
    assert_eq!(rete, prius);
    assert_eq!(rete.instruere(&intrata, &exspectata), Ok(()));
    assert_ne!(rete, prius);
}

#[test]
fn xor_disciplina_perditionem_minuit() {
    let (intratae, exspectatae) = exempla_xor();
    let mut rete = rete_xor();
    let perditio_prima = rete.perditio_batch(&intratae, &exspectatae).unwrap().0;
    let exempla = vec![
        (vec![0.0, 0.0], vec![0.0]),
        (vec![0.0, 1.0], vec![1.0]),
        (vec![1.0, 0.0], vec![1.0]),
        (vec![1.0, 1.0], vec![0.0]),
    ];
    for _ in 0..10000 {
        for (inputum, exspectatum) in &exempla {
            let in_vec = Tensor1D::ex_vec(vector(inputum.clone()));
            let ex_vec = Tensor1D::ex_vec(vector(exspectatum.clone()));
            rete.instruere(&in_vec, &ex_vec).unwrap();
        }
    }
    let perditio_ultima = rete.perditio_batch(&intratae, &exspectatae).unwrap().0;
    assert!(prope(perditio_prima, 0.3256805085873276));
    assert!(perditio_ultima < perditio_prima);
    assert!(perditio_ultima < 0.26);
    for (inputum, _) in exempla {
        let exitus = rete.praedictio(&Tensor1D::ex_vec(vector(inputum))).unwrap();
        assert!(0.0 < exitus.materia()[0].0 && exitus.materia()[0].0 < 1.0);
    }
}

#[test]
fn batch_aequat_seriem_graduum() {
    let (intratae, exspectatae) = exempla_xor();
    let mut per_batch = Neuronatus::<R>::novus(2, 3, 1, R(0.4));
    let mut per_gradus = per_batch.clone();
    assert_eq!(per_batch, per_gradus);

    assert_eq!(per_batch.instruere_batch(&intratae, &exspectatae), Ok(()));
    for i in 0..intratae.profunditas() {
        let intrata = intratae.ordo(i, 0).unwrap();
        let exspectata = exspectatae.ordo(i, 0).unwrap();
        per_gradus.instruere(&intrata, &exspectata).unwrap();
    }
    assert_eq!(per_batch, per_gradus);

    let mut ordine_verso = rete_xor();
    let mut ordine_recto = rete_xor();
    ordine_recto.instruere_batch(&intratae, &exspectatae).unwrap();
    for i in (0..4).rev() {
        ordine_verso
            .instruere(&intratae.ordo(i, 0).unwrap(), &exspectatae.ordo(i, 0).unwrap())
            .unwrap();
    }
    assert_ne!(ordine_recto, ordine_verso);
}

#[test]
fn instruere_batch_ordinem_primum_plani_sumit() {
    let intratae =
        Tensor3D::ex_vec(cubus(vec![vec![vec![0.0, 1.0], vec![9.0, 9.0]]])).unwrap();
    let exspectatae = Tensor3D::ex_vec(cubus(vec![vec![vec![1.0], vec![7.0]]])).unwrap();
    let mut per_batch = rete_xor();
    let mut per_gradum = rete_xor();
    per_batch.instruere_batch(&intratae, &exspectatae).unwrap();
    per_gradum
        .instruere(&Tensor1D::ex_vec(vector(vec![0.0, 1.0])), &Tensor1D::ex_vec(vector(vec![1.0])))
        .unwrap();
    assert_eq!(per_batch, per_gradum);
}

#[test]
fn instruere_batch_amplitudines_diversas_recusat() {
    let (intratae, _) = exempla_xor();
    let exspectatae =
        Tensor3D::ex_vec(cubus(vec![vec![vec![0.0]], vec![vec![1.0]], vec![vec![1.0]]])).unwrap();
    let mut rete = rete_xor();
    let prius = rete.clone();
    assert_eq!(rete.instruere_batch(&intratae, &exspectatae), Err(Erratum::BatchSizeError));
    assert_eq!(rete, prius);
    assert_eq!(rete.disciplina(&intratae, &exspectatae, 3, true), Err(Erratum::BatchSizeError));
    assert_eq!(rete, prius);
    assert_eq!(rete.perditio_batch(&intratae, &exspectatae), Err(Erratum::BatchSizeError));
}

#[test]
fn instruere_batch_formas_ineptas_recusat() {
    let (intratae, exspectatae) = exempla_xor();
    let latiores = Tensor3D::<R>::nullus(4, 1, 3);
    let mut rete = rete_xor();
    let prius = rete.clone();
    assert_eq!(rete.instruere_batch(&latiores, &exspectatae), Err(Erratum::ShapeError));
    assert_eq!(rete.instruere_batch(&intratae, &latiores), Err(Erratum::ShapeError));
    assert_eq!(rete.disciplina(&latiores, &exspectatae, 2, false), Err(Erratum::ShapeError));
    assert_eq!(rete.perditio_batch(&intratae, &latiores), Err(Erratum::ShapeError));
    let sine_ordinibus = Tensor3D::<R>::nullus(4, 0, 2);
    assert_eq!(rete.instruere_batch(&sine_ordinibus, &exspectatae), Err(Erratum::ShapeError));
    assert_eq!(rete, prius);
}

#[test]
fn instruere_batch_sine_exemplis_nihil_mutat() {
    let vacuae = Tensor3D::<R>::nullus(0, 1, 5);
    let mut rete = rete_xor();
    let prius = rete.clone();
    assert_eq!(rete.instruere_batch(&vacuae, &vacuae), Ok(()));
    assert_eq!(rete, prius);
}

#[test]
fn disciplina_nuntios_dat() {
    let (intratae, exspectatae) = exempla_xor();
    let mut rete = rete_xor();
    let nuntii = rete.disciplina(&intratae, &exspectatae, 250, false).unwrap();
    let epocha: Vec<usize> = nuntii.iter().map(|n| n.0).collect();
    assert_eq!(epocha, vec![0, 100, 200, 249]);
    let perditiones =
        [0.30048208655906444, 0.2500263251972316, 0.2500228976324744, 0.2500877004003856];
    for i in 0..4 {
        assert!((nuntii[i].1 .0 - perditiones[i]).abs() < 1e-9);
    }

    let mut per_batch = rete_xor();
    for _ in 0..250 {
        per_batch.instruere_batch(&intratae, &exspectatae).unwrap();
    }
    assert_eq!(rete, per_batch);
    assert_eq!(nuntii[3].1, rete.perditio_batch(&intratae, &exspectatae).unwrap());
}

#[test]
fn disciplina_epochon_ultimum_semel_nuntiat() {
    let (intratae, exspectatae) = exempla_xor();
    let mut rete = rete_xor();
    let nuntii = rete.disciplina(&intratae, &exspectatae, 101, false).unwrap();
    let epocha: Vec<usize> = nuntii.iter().map(|n| n.0).collect();
    assert_eq!(epocha, vec![0, 100]);
    let nuntii = rete.disciplina(&intratae, &exspectatae, 1, false).unwrap();
    assert_eq!(nuntii.len(), 1);
    assert_eq!(nuntii[0].0, 0);
    let nuntii = rete.disciplina(&intratae, &exspectatae, 100, false).unwrap();
    let epocha: Vec<usize> = nuntii.iter().map(|n| n.0).collect();
    assert_eq!(epocha, vec![0, 99]);
}

#[test]
fn disciplina_silens_nihil_nuntiat() {
    let (intratae, exspectatae) = exempla_xor();
    let mut rete = rete_xor();
    let mut loquens = rete_xor();
    let nuntii = rete.disciplina(&intratae, &exspectatae, 120, true).unwrap();
    assert!(nuntii.is_empty());
    loquens.disciplina(&intratae, &exspectatae, 120, false).unwrap();
    assert_eq!(rete, loquens);
}

#[test]
fn disciplina_sine_epochis_nihil_mutat() {
    let (intratae, exspectatae) = exempla_xor();
    let mut rete = rete_xor();
    let prius = rete.clone();
    let nuntii = rete.disciplina(&intratae, &exspectatae, 0, false).unwrap();
    assert!(nuntii.is_empty());
    assert_eq!(rete, prius);
}

#[test]
fn perditio_mse_valores_exactos_dat() {
    let a = Tensor1D::ex_vec(vector(vec![1.0, 2.0, 3.0]));
    let b = Tensor1D::ex_vec(vector(vec![1.0, 2.0, 5.0]));
    assert_eq!(Neuronatus::perditio_mse(&a, &b), Ok(R(4.0 / 3.0)));
    let c = Tensor1D::ex_vec(vector(vec![0.5, -1.5]));
    let d = Tensor1D::ex_vec(vector(vec![1.0, 0.5]));
    assert_eq!(Neuronatus::perditio_mse(&c, &d), Ok(R(2.125)));
}

#[test]
fn perditio_mse_vectoris_contra_se_nulla_est() {
    let a = Tensor1D::ex_vec(vector(vec![0.1, -7.25, 3.0e10, 1.0e-300]));
    assert_eq!(Neuronatus::perditio_mse(&a, &a), Ok(R(0.0)));
    let rete = rete_xor();
    let exitus = rete.praedictio(&Tensor1D::ex_vec(vector(vec![1.0, 0.0]))).unwrap();
    assert_eq!(Neuronatus::perditio_mse(&exitus, &exitus), Ok(R(0.0)));
}

#[test]
fn perditio_mse_longitudines_diversas_recusat() {
    let a = Tensor1D::ex_vec(vector(vec![1.0, 2.0]));
    let b = Tensor1D::ex_vec(vector(vec![1.0]));
    assert_eq!(Neuronatus::perditio_mse(&a, &b), Err(Erratum::ShapeError));
}

#[test]
fn perditio_batch_mediam_dat() {
    let (intratae, exspectatae) = exempla_xor();
    let rete = rete_xor();
    let perditio = rete.perditio_batch(&intratae, &exspectatae).unwrap();
    assert!(prope(perditio.0, 0.3256805085873276));

    let mut summa = 0.0;
    for i in 0..4 {
        let exitus = rete.praedictio(&intratae.ordo(i, 0).unwrap()).unwrap();
        summa += Neuronatus::perditio_mse(&exitus, &exspectatae.ordo(i, 0).unwrap()).unwrap().0;
    }
    assert_eq!(perditio, R(summa / 4.0));
}

#[test]
fn perditio_batch_exspectata_superflua_non_legit() {
    let (intratae, exspectatae) = exempla_xor();
    let plures = Tensor3D::ex_vec(cubus(vec![
        vec![vec![0.0]],
        vec![vec![1.0]],
        vec![vec![1.0]],
        vec![vec![0.0]],
        vec![vec![0.75]],
        vec![vec![0.25]],
    ]))
    .unwrap();
    let rete = rete_xor();
    assert_eq!(
        rete.perditio_batch(&intratae, &plures),
        rete.perditio_batch(&intratae, &exspectatae)
    );
    assert_eq!(rete.perditio_batch(&plures, &exspectatae), Err(Erratum::BatchSizeError));
    let latiores = Tensor3D::<R>::nullus(6, 1, 2);
    assert_eq!(rete.perditio_batch(&intratae, &latiores), Err(Erratum::ShapeError));
    let vacuae = Tensor3D::<R>::nullus(0, 1, 2);
    assert!(rete.perditio_batch(&vacuae, &latiores).unwrap().0.is_nan());
}

#[test]
fn rete_ex_partibus_suis_idem_praedicit() {
    let mut rete = Neuronatus::<R>::novus(3, 5, 2, R(0.25));
    rete.instruere(
        &Tensor1D::ex_vec(vector(vec![0.2, 0.4, 0.6])),
        &Tensor1D::ex_vec(vector(vec![1.0, 0.0])),
    )
    .unwrap();
    let restitutum = Neuronatus::ex_partibus(
        rete.input(),
        rete.hidden(),
        rete.output(),
        rete.pesi_ih().clone(),
        rete.pesi_ho().clone(),
        rete.bias_h().clone(),
        rete.bias_o().clone(),
        rete.celeritas(),
    )
    .unwrap();
    assert_eq!(restitutum, rete);
    let intrata = Tensor1D::ex_vec(vector(vec![0.9, -0.3, 0.1]));
    let a = rete.praedictio(&intrata).unwrap();
    let b = restitutum.praedictio(&intrata).unwrap();
    for i in 0..2 {
        assert_eq!(a.materia()[i].0.to_bits(), b.materia()[i].0.to_bits());
    }
}

fn vector_in_json(valores: &Vec<R>) -> serde_json::Value {
    serde_json::Value::Array(valores.iter().map(|v| serde_json::Value::from(v.0)).collect())
}

fn rete_in_json(rete: &Neuronatus<R>) -> String {
    let matrix_in_json = |tensor: &Tensor2D<R>| {
        serde_json::Value::Array(tensor.materia().iter().map(vector_in_json).collect())
    };
    let mut tabula = serde_json::Map::new();
    tabula.insert("input".to_string(), serde_json::Value::from(rete.input()));
    tabula.insert("hidden".to_string(), serde_json::Value::from(rete.hidden()));
    tabula.insert("output".to_string(), serde_json::Value::from(rete.output()));
    tabula.insert("pesi_ih".to_string(), matrix_in_json(rete.pesi_ih()));
    tabula.insert("pesi_ho".to_string(), matrix_in_json(rete.pesi_ho()));
    tabula.insert("bias_h".to_string(), vector_in_json(rete.bias_h().materia()));
    tabula.insert("bias_o".to_string(), vector_in_json(rete.bias_o().materia()));
    tabula.insert("celeritas".to_string(), serde_json::Value::from(rete.celeritas().0));
    serde_json::to_string_pretty(&serde_json::Value::Object(tabula)).unwrap()
}

fn vector_ex_json(valor: &serde_json::Value) -> Vec<R> {
    valor.as_array().unwrap().iter().map(|v| R(v.as_f64().unwrap())).collect()
}

fn rete_ex_json(textus: &str) -> Neuronatus<R> {
    let valor: serde_json::Value = serde_json::from_str(textus).unwrap();
    let matrix_ex_json = |valor: &serde_json::Value| {
        let ordines: Vec<Vec<R>> = valor.as_array().unwrap().iter().map(vector_ex_json).collect();
        Tensor2D::ex_vec(ordines).unwrap()
    };
    Neuronatus::ex_partibus(
        valor["input"].as_u64().unwrap() as usize,
        valor["hidden"].as_u64().unwrap() as usize,
        valor["output"].as_u64().unwrap() as usize,
        matrix_ex_json(&valor["pesi_ih"]),
        matrix_ex_json(&valor["pesi_ho"]),
        Tensor1D::ex_vec(vector_ex_json(&valor["bias_h"])),
        Tensor1D::ex_vec(vector_ex_json(&valor["bias_o"])),
        R(valor["celeritas"].as_f64().unwrap()),
    )
    .unwrap()
}

#[test]
fn rete_per_json_idem_praedicit() {
    let intratae = [vec![0.9, -0.3, 0.1], vec![0.0, 0.0, 0.0], vec![1e-7, 3.5e8, -2.25]];
    for _ in 0..50 {
        let mut rete = Neuronatus::<R>::novus(3, 5, 2, R(0.1));
        rete.instruere(
            &Tensor1D::ex_vec(vector(vec![0.2, 0.4, 0.6])),
            &Tensor1D::ex_vec(vector(vec![1.0, 0.0])),
        )
        .unwrap();
        let restitutum = rete_ex_json(&rete_in_json(&rete));
        assert_eq!(restitutum, rete);
        for intrata in &intratae {
            let a = rete.praedictio(&Tensor1D::ex_vec(vector(intrata.clone()))).unwrap();
            let b = restitutum.praedictio(&Tensor1D::ex_vec(vector(intrata.clone()))).unwrap();
            for i in 0..2 {
                assert_eq!(a.materia()[i].0.to_bits(), b.materia()[i].0.to_bits());
            }
        }
    }
}

#[test]
fn praedictio_bis_idem_dat() {
    let rete = Neuronatus::<R>::novus(3, 4, 2, R(0.3));
    let prius = rete.clone();
    let intrata = Tensor1D::ex_vec(vector(vec![0.25, -1.5, 3.0]));
    let exemplar = intrata.clone();
    let a = rete.praedictio(&intrata).unwrap();
    let b = rete.praedictio(&intrata).unwrap();
    for i in 0..2 {
        assert_eq!(a.materia()[i].0.to_bits(), b.materia()[i].0.to_bits());
    }
    assert_eq!(rete, prius);
    assert_eq!(intrata, exemplar);
}
