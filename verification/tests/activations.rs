use neural_network::nn::activation_functions::{
    get_activation_function, ActivationFunction, ActivationFunctionTrait,
    ActivationFunctionWrapper, LeakyRelu, Linear, Relu, Sigmoid, Softmax, Tanh,
};
use neural_network::scalar::Scalar;
use rand::distributions::{Distribution, Uniform};
use rand::rngs::StdRng;
use rand::SeedableRng;

#[derive(Clone, Copy, Debug, PartialEq)]
struct Real(f64);

impl Scalar for Real {
    fn from_int(value: i32) -> Self {
        Real(value as f64)
    }

    fn from_count(n: usize) -> Self {
        Real(n as f64)
    }

    fn greatest() -> Self {
        Real(f64::MAX)
    }

    fn least() -> Self {
        Real(f64::MIN)
    }

    fn plus(self, rhs: Self) -> Self {
        Real(self.0 + rhs.0)
    }

    fn minus(self, rhs: Self) -> Self {
        Real(self.0 - rhs.0)
    }

    fn times(self, rhs: Self) -> Self {
        Real(self.0 * rhs.0)
    }

    fn over(self, rhs: Self) -> Self {
        Real(self.0 / rhs.0)
    }

    fn exp(self) -> Self {
        Real(self.0.exp())
    }

    fn ln(self) -> Self {
        Real(self.0.ln())
    }

    fn tanh(self) -> Self {
        Real(self.0.tanh())
    }

    fn larger(self, rhs: Self) -> Self {
        Real(f64::max(self.0, rhs.0))
    }

    fn below(self, rhs: Self) -> bool {
        self.0 < rhs.0
    }

    fn same(self, rhs: Self) -> bool {
        self.0 == rhs.0
    }

    fn uniform(low: Self, high: Self, draw: u64) -> Self {
        if low.0 < high.0 && (high.0 - low.0).is_finite() {
            Real(Uniform::new(low.0, high.0).sample(&mut StdRng::seed_from_u64(draw)))
        } else {
            low
        }
    }
}

fn reals(values: &[f64]) -> Vec<Real> {
    values.iter().map(|v| Real(*v)).collect()
}

fn floats(values: &[Real]) -> Vec<f64> {
    values.iter().map(|v| v.0).collect()
}

fn close(a: f64, b: f64) -> bool {
    (a - b).abs() < 1e-12
}

#[test]
fn each_name_gets_its_own_function() {
    assert!(matches!(
        get_activation_function(ActivationFunction::Linear),
        ActivationFunctionWrapper::Linear(_)
    ));
    assert!(matches!(
        get_activation_function(ActivationFunction::Sigmoid),
        ActivationFunctionWrapper::Sigmoid(_)
    ));
    assert!(matches!(
        get_activation_function(ActivationFunction::Relu),
        ActivationFunctionWrapper::Relu(_)
    ));
    assert!(matches!(
        get_activation_function(ActivationFunction::LeakyRelu),
        ActivationFunctionWrapper::LeakyRelu(_)
    ));
    assert!(matches!(
        get_activation_function(ActivationFunction::Tanh),
        ActivationFunctionWrapper::Tanh(_)
    ));
    assert!(matches!(
        get_activation_function(ActivationFunction::Softmax),
        ActivationFunctionWrapper::Softmax(_)
    ));
}

#[test]
fn linear_is_the_identity_with_slope_one() {
    let f = Linear;
    let none: Vec<Real> = vec![];
    assert_eq!(f.apply(Real(3.5)), Real(3.5));
    assert_eq!(f.apply(Real(-2.0)), Real(-2.0));
    assert_eq!(f.commit(Real(3.5), &none), Real(3.5));
    assert_eq!(f.derivative(Real(3.5), &none), Real(1.0));
    assert_eq!(f.derivative(Real(-7.0), &none), Real(1.0));
}

#[test]
fn sigmoid_is_a_half_at_zero() {
    let f = Sigmoid;
    let none: Vec<Real> = vec![];
    assert_eq!(f.apply(Real(0.0)), Real(0.5));
    assert_eq!(f.commit(Real(0.0), &none), Real(0.5));
    assert_eq!(f.derivative(Real(0.0), &none), Real(0.25));
}

#[test]
fn sigmoid_follows_its_formula() {
    let f = Sigmoid;
    let none: Vec<Real> = vec![];
    let x = 2.0_f64;
    let y = 1.0 / (1.0 + (-1.0 * x).exp());
    assert_eq!(f.apply(Real(x)), Real(y));
    assert_eq!(f.derivative(Real(x), &none), Real(y * (1.0 - y)));
    assert!(f.apply(Real(-40.0)).0 < 1e-12);
    assert!(f.apply(Real(40.0)).0 > 1.0 - 1e-12);
}

#[test]
fn relu_lets_nothing_negative_through() {
    let f = Relu;
    let none: Vec<Real> = vec![];
    assert_eq!(f.apply(Real(-3.0)), Real(0.0));
    assert_eq!(f.apply(Real(0.0)), Real(0.0));
    assert_eq!(f.apply(Real(2.5)), Real(2.5));
    assert_eq!(f.commit(Real(-3.0), &none), Real(0.0));
    assert_eq!(f.derivative(Real(-1.0), &none), Real(0.0));
    assert_eq!(f.derivative(Real(0.0), &none), Real(1.0));
    assert_eq!(f.derivative(Real(2.0), &none), Real(1.0));
}

#[test]
fn leaky_relu_lets_a_hundredth_through() {
    let f = LeakyRelu;
    let none: Vec<Real> = vec![];
    assert_eq!(f.apply(Real(-2.0)), Real(0.01 * -2.0));
    assert_eq!(f.apply(Real(-2.0)), Real(-0.02));
    assert_eq!(f.apply(Real(0.0)), Real(0.0));
    assert_eq!(f.apply(Real(3.0)), Real(3.0));
    assert_eq!(f.commit(Real(-2.0), &none), Real(-0.02));
    assert_eq!(f.derivative(Real(-2.0), &none), Real(0.01));
    assert_eq!(f.derivative(Real(0.0), &none), Real(1.0));
    assert_eq!(f.derivative(Real(3.0), &none), Real(1.0));
}

#[test]
fn tanh_follows_its_formula() {
    let f = Tanh;
    let none: Vec<Real> = vec![];
    let x = 0.5_f64;
    assert_eq!(f.apply(Real(x)), Real(x.tanh()));
    assert_eq!(f.apply(Real(0.0)), Real(0.0));
    assert_eq!(f.commit(Real(x), &none), Real(x.tanh()));
    assert_eq!(f.derivative(Real(x), &none), Real(1.0 - x.tanh() * x.tanh()));
    assert_eq!(f.derivative(Real(0.0), &none), Real(1.0));
}

#[test]
fn softmax_applies_as_the_identity() {
    let f = Softmax;
    assert_eq!(f.apply(Real(1.25)), Real(1.25));
    assert_eq!(f.apply(Real(-4.0)), Real(-4.0));
}

#[test]
fn softmax_commits_to_a_share_of_the_layer() {
    let f = Softmax;
    let all = reals(&[1.0, 2.0, 3.0]);
    let sum = (1.0_f64 - 3.0).exp() + (2.0_f64 - 3.0).exp() + (3.0_f64 - 3.0).exp();
    assert!(close(f.commit(Real(1.0), &all).0, (1.0_f64 - 3.0).exp() / sum));
    assert!(close(f.commit(Real(2.0), &all).0, (2.0_f64 - 3.0).exp() / sum));
    assert!(close(f.commit(Real(3.0), &all).0, 1.0 / sum));
    let total: f64 = all.iter().map(|o| f.commit(*o, &all).0).sum();
    assert!(close(total, 1.0));
}

#[test]
fn softmax_of_equal_outputs_is_an_equal_share() {
    let f = Softmax;
    let all = reals(&[0.7, 0.7, 0.7, 0.7]);
    assert_eq!(f.commit(Real(0.7), &all), Real(0.25));
    let one = reals(&[5.0]);
    assert_eq!(f.commit(Real(5.0), &one), Real(1.0));
}

#[test]
fn softmax_stays_finite_on_large_outputs() {
    let f = Softmax;
    let all = reals(&[1000.0, 1001.0]);
    let low = f.commit(Real(1000.0), &all).0;
    let high = f.commit(Real(1001.0), &all).0;
    assert!(low.is_finite() && high.is_finite());
    assert!(close(low + high, 1.0));
    assert!(close(high, 1.0 / (1.0 + (-1.0_f64).exp())));
}

#[test]
fn softmax_slope_is_the_diagonal_only() {
    let f = Softmax;
    let all = reals(&[1.0, 2.0, 3.0]);
    let y = f.commit(Real(2.0), &all).0;
    assert_eq!(f.derivative(Real(2.0), &all), Real(y * (1.0 - y)));
}

#[test]
fn a_wrapper_acts_as_the_function_it_holds() {
    let none: Vec<Real> = vec![];
    let all = reals(&[1.0, 2.0, 3.0]);
    let x = Real(-1.5);
    assert_eq!(get_activation_function(ActivationFunction::Linear).apply(x), Linear.apply(x));
    assert_eq!(get_activation_function(ActivationFunction::Sigmoid).apply(x), Sigmoid.apply(x));
    assert_eq!(get_activation_function(ActivationFunction::Relu).apply(x), Relu.apply(x));
    assert_eq!(
        get_activation_function(ActivationFunction::LeakyRelu).apply(x),
        LeakyRelu.apply(x)
    );
    assert_eq!(get_activation_function(ActivationFunction::Tanh).apply(x), Tanh.apply(x));
    assert_eq!(get_activation_function(ActivationFunction::Softmax).apply(x), Softmax.apply(x));
    assert_eq!(
        get_activation_function(ActivationFunction::Softmax).commit(x, &all),
        Softmax.commit(x, &all)
    );
    assert_eq!(
        get_activation_function(ActivationFunction::LeakyRelu).derivative(x, &none),
        Real(0.01)
    );
    assert_eq!(
        get_activation_function(ActivationFunction::Softmax).derivative(x, &all),
        Softmax.derivative(x, &all)
    );
    assert_eq!(floats(&all), vec![1.0, 2.0, 3.0]);
}
