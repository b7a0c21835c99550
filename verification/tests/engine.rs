//! The engine on numbers: a small host carries out what the library lays out.

use ndarray::{arr0, Array, ArrayD, Ix2, IxDyn};
use rusty_grad::backend::ops::{add, diff, div, dot, mul, pow};
use rusty_grad::backend::tape::{Factor, Step};
use rusty_grad::backend::tensor::{Graph, GraphError, Op, RTensor, Tensor};
use rusty_grad::backend::value::Value;
use rusty_grad::nn::activations::{relu, tanh};
use rusty_grad::nn::components::{Module, Neuron};
use rusty_grad::nn::layers::{Dense, Layer};
use rusty_grad::nn::losses::squared_error;
use rusty_grad::nn::models::MLP;

/// A graph together with the data and the gradient of each of its nodes.
struct Host {
    graph: Graph,
    data: Vec<ArrayD<f32>>,
    grad: Vec<ArrayD<f32>>,
}

fn matrix_product(a: &ArrayD<f32>, b: &ArrayD<f32>) -> ArrayD<f32> {
    let a = a.view().into_dimensionality::<Ix2>().unwrap();
    let b = b.view().into_dimensionality::<Ix2>().unwrap();
    a.dot(&b).into_dyn()
}

fn transposed(a: &ArrayD<f32>) -> ArrayD<f32> {
    let a = a.view().into_dimensionality::<Ix2>().unwrap();
    a.t().to_owned().into_dyn()
}

impl Host {
    fn new() -> Self {
        Host { graph: Graph::new(), data: vec![], grad: vec![] }
    }

    fn leaf(&mut self, data: &ArrayD<f32>) -> RTensor {
        self.forward();
        let handle = Tensor::new_ref(&mut self.graph, data.shape());
        self.data.push(data.clone());
        self.grad.push(ArrayD::zeros(data.raw_dim()));
        handle
    }

    fn scalar(&mut self, value: f32) -> RTensor {
        self.forward();
        let handle = Value::new_rc(&mut self.graph);
        self.data.push(arr0(value).into_dyn());
        self.grad.push(arr0(0.0).into_dyn());
        handle
    }

    fn forward(&mut self) {
        for handle in self.data.len()..self.graph.len() {
            let node = self.graph.get(handle).unwrap();
            let shape = IxDyn(&node.shape);
            let value = match node.op {
                Op::Leaf => ArrayD::zeros(shape.clone()),
                Op::Constant { bits } => ArrayD::from_elem(shape.clone(), f32::from_bits(bits)),
                Op::Add => &self.data[node.prev[0]] + &self.data[node.prev[1]],
                Op::Mul => &self.data[node.prev[0]] * &self.data[node.prev[1]],
                Op::Dot => matrix_product(&self.data[node.prev[0]], &self.data[node.prev[1]]),
                Op::Pow { power } => {
                    let power = f32::from_bits(power);
                    self.data[node.prev[0]].mapv(|x| x.powf(power))
                }
                Op::Relu => self.data[node.prev[0]].mapv(|x| if x > 0. { x } else { 0. }),
                Op::Tanh => {
                    let aux_exp = self.data[node.prev[0]].mapv(|x| f32::exp(2.0 * x));
                    (&aux_exp - 1.) / (&aux_exp + 1.)
                }
            };
            self.data.push(value);
            self.grad.push(ArrayD::zeros(shape));
        }
    }

    fn run(&mut self, tape: &[Step]) {
        self.forward();
        for step in tape {
            match *step {
                Step::Seed { node } => self.grad[node].fill(1.0),
                Step::Reset { node } => self.grad[node].fill(0.0),
                Step::Accumulate { from, into, factor } => {
                    let g = &self.grad[from];
                    let contribution = match factor {
                        Factor::Identity => g.clone(),
                        Factor::Times { other } => g * &self.data[other],
                        Factor::TimesTransposed { other } => {
                            matrix_product(g, &transposed(&self.data[other]))
                        }
                        Factor::TransposedTimes { other } => {
                            matrix_product(&transposed(&self.data[other]), g)
                        }
                        Factor::Power { power } => {
                            let power = f32::from_bits(power);
                            let dprev = self.data[into].mapv(|x| x.powf(power - 1.0)) * power;
                            g * &dprev
                        }
                        Factor::Positive => {
                            g * &self.data[into].mapv(|x| (x > 0.) as u8 as f32)
                        }
                        Factor::OneMinusSquare => {
                            g * &self.data[from].mapv(|x| 1. - f32::powi(x, 2))
                        }
                    };
                    self.grad[into] += &contribution;
                }
            }
        }
    }

    fn backward(&mut self, root: RTensor) {
        let tape = Tensor::backward(&self.graph, root).unwrap();
        self.run(&tape);
    }

    fn data_of(&mut self, handle: RTensor) -> ArrayD<f32> {
        self.forward();
        self.data[handle].clone()
    }

    fn value_of(&mut self, handle: RTensor) -> f32 {
        self.forward();
        self.data[handle][IxDyn(&[])]
    }

    fn grad_of(&self, handle: RTensor) -> f32 {
        self.grad[handle][IxDyn(&[])]
    }
}

fn arr23(data: Vec<f32>) -> ArrayD<f32> {
    ArrayD::from_shape_vec(IxDyn(&[2, 3]), data).unwrap()
}

fn arr22(data: Vec<f32>) -> ArrayD<f32> {
    ArrayD::from_shape_vec(IxDyn(&[2, 2]), data).unwrap()
}

fn zero_array(shape: &[usize]) -> ArrayD<f32> {
    ArrayD::zeros(IxDyn(shape))
}

// Elementwise and matrix operations on tensors.

#[test]
fn ops_add_ok() {
    let mut h = Host::new();
    let arr1 = arr23(vec![1., 2., 3., 4., 5., 6.]);
    let arr2 = arr23(vec![6., 5., 4., 3., 2., 1.]);
    let t1 = h.leaf(&arr1);
    let t2 = h.leaf(&arr2);
    let t3 = add(&mut h.graph, t1, t2).unwrap();
    assert_eq!(h.data_of(t3), arr23(vec![7., 7., 7., 7., 7., 7.]));
}

#[test]
fn ops_add_backward_ok() {
    let mut h = Host::new();
    let arr1 = arr23(vec![1., 2., -3., 4., 5., 6.]);
    let arr2 = arr23(vec![-6., 5., 4., 3., -2., 1.]);
    let t1 = h.leaf(&arr1);
    let t2 = h.leaf(&arr2);
    let t3 = add(&mut h.graph, t1, t2).unwrap();
    assert_eq!(h.data_of(t3), arr23(vec![-5., 7., 1., 7., 3., 7.]));

    h.backward(t3);
    let target_grad = Array::<f32, _>::ones(h.grad[t1].raw_dim());
    assert_eq!(h.grad[t1], target_grad);
    assert_eq!(h.grad[t2], target_grad);
}

#[test]
fn ops_diff_ok() {
    let mut h = Host::new();
    let arr1 = arr23(vec![1., 2., 3., 4., 5., 6.]);
    let arr2 = arr23(vec![6., 5., 4., 3., 2., 1.]);
    let t1 = h.leaf(&arr1);
    let t2 = h.leaf(&arr2);
    let t3 = diff(&mut h.graph, t1, t2).unwrap();
    assert_eq!(h.data_of(t3), arr23(vec![-5., -3., -1., 1., 3., 5.]));
}

#[test]
fn ops_diff_backward_ok() {
    let mut h = Host::new();
    let arr1 = arr23(vec![1., 2., -3., 4., 5., 6.]);
    let arr2 = arr23(vec![-6., 5., 4., 3., -2., 1.]);
    let t1 = h.leaf(&arr1);
    let t2 = h.leaf(&arr2);
    let t3 = diff(&mut h.graph, t1, t2).unwrap();
    assert_eq!(h.data_of(t3), arr23(vec![7., -3., -7., 1., 7., 5.]));

    h.backward(t3);
    let target_grad = Array::<f32, _>::ones(h.grad[t1].raw_dim());
    assert_eq!(h.grad[t1], target_grad);
    assert_eq!(h.grad[t2], -target_grad);
}

#[test]
fn ops_mul_ok() {
    let mut h = Host::new();
    let arr1 = arr23(vec![1., 2., 3., 4., 5., 6.]);
    let arr2 = arr23(vec![6., 5., 4., 3., 2., 1.]);
    let t1 = h.leaf(&arr1);
    let t2 = h.leaf(&arr2);
    let t3 = mul(&mut h.graph, t1, t2).unwrap();
    assert_eq!(h.data_of(t3), arr23(vec![6., 10., 12., 12., 10., 6.]));
}

#[test]
fn ops_mul_backward_ok() {
    let mut h = Host::new();
    let arr1 = arr23(vec![1., 2., -3., 4., 5., 6.]);
    let arr2 = arr23(vec![-6., 5., 4., 3., -2., 1.]);
    let t1 = h.leaf(&arr1);
    let t2 = h.leaf(&arr2);
    let t3 = mul(&mut h.graph, t1, t2).unwrap();
    assert_eq!(h.data_of(t3), arr23(vec![-6., 10., -12., 12., -10., 6.]));

    h.backward(t3);
    assert_eq!(h.grad[t1], arr2);
    assert_eq!(h.grad[t2], arr1);
}

#[test]
fn div_ok() {
    let mut h = Host::new();
    let arr1 = arr23(vec![1., 2., 9., 10., 1., 6.]);
    let arr2 = arr23(vec![2., 2., 3., 5., 4., 1.]);
    let t1 = h.leaf(&arr1);
    let t2 = h.leaf(&arr2);
    let t3 = div(&mut h.graph, t1, t2).unwrap();
    assert_eq!(h.data_of(t3), arr23(vec![0.5, 1., 3., 2., 0.25, 6.]));
}

#[test]
fn div_backward_ok() {
    let mut h = Host::new();
    let arr1 = arr23(vec![0.3, -0.6, 1.2, -0.6, -0.4, 2.2]);
    let arr2 = arr23(vec![0.9, 0.2, -0.4, -0.3, -0.2, 2.2]);
    let t1 = h.leaf(&arr1);
    let t2 = h.leaf(&arr2);
    let t3 = div(&mut h.graph, t1, t2).unwrap();
    assert_eq!(h.data_of(t3), arr23(vec![0.33333337, -3., -3., 2., 2., 1.]));

    h.backward(t3);
    assert_eq!(
        h.grad[t1],
        arr23(vec![1.1111112, 5., -2.5, -3.3333333, -5., 0.45454544])
    );
    assert_eq!(
        h.grad[t2],
        arr23(vec![-0.37037042, 15.000001, -7.5000005, 6.6666665, 10., -0.45454544])
    );
}

#[test]
fn ops_pow_ok() {
    let mut h = Host::new();
    let arr = arr23(vec![1., 2., 4., 3., 5., 6.]);
    let t = h.leaf(&arr);
    let res = pow(&mut h.graph, t, 2.0f32.to_bits()).unwrap();
    assert_eq!(h.data_of(res), arr23(vec![1., 4., 16., 9., 25., 36.]));
}

#[test]
fn ops_pow_backward_ok() {
    let mut h = Host::new();
    let arr = arr23(vec![1., 2., 4., 3., 5., 6.]);
    let t = h.leaf(&arr);
    let res = pow(&mut h.graph, t, 2.0f32.to_bits()).unwrap();
    assert_eq!(h.data_of(res), arr23(vec![1., 4., 16., 9., 25., 36.]));

    h.backward(res);
    assert_eq!(h.grad[t], arr23(vec![2., 4., 8., 6., 10., 12.]));
}

// Leaves.

#[test]
fn new_ok() {
    let shape = &[2, 3];
    let data = vec![1.0, 2.0, 3.0, 4.0, 5.0, 6.0];
    let arr = ArrayD::from_shape_vec(IxDyn(shape), data).unwrap();
    let t = Tensor::new(arr.shape());

    assert_eq!(t.shape, arr.shape());
    assert!(t.prev.is_empty());
    assert_eq!(t.op, Op::Leaf);
    assert_eq!(ArrayD::<f32>::zeros(IxDyn(&t.shape)), zero_array(shape));
}

#[test]
fn new_ref_ok() {
    let shape = &[2, 3];
    let data = vec![1.0, 2.0, 3.0, 4.0, 5.0, 6.0];
    let arr = ArrayD::from_shape_vec(IxDyn(shape), data).unwrap();
    let mut h = Host::new();
    let t = h.leaf(&arr);

    assert_eq!(h.data[t], arr);
    assert_eq!(h.grad[t], zero_array(shape));
    assert_eq!(h.graph.get(t).unwrap().shape, arr.shape());
}

#[test]
fn macro_tensor_ok() {
    let shape = &[2, 3];
    let data = vec![1.0, 2.0, 3.0, 4.0, 5.0, 6.0];
    let arr = ArrayD::from_shape_vec(IxDyn(shape), data).unwrap();
    let t = {
        let shape = IxDyn(&[2, 3]);
        let data: Vec<f32> = vec![1.0, 2.0, 3.0, 4.0, 5.0, 6.0];
        let data_array = &ArrayD::from_shape_vec(shape, data).unwrap();
        (Tensor::new(data_array.shape()), data_array.clone())
    };

    assert_eq!(t.1, arr);
    assert_eq!(t.0.shape, arr.shape());
    assert_eq!(ArrayD::<f32>::zeros(IxDyn(&t.0.shape)), zero_array(shape));
}

#[test]
fn macro_rtensor_ok() {
    let shape = &[2, 3];
    let data = vec![1.0, 2.0, 3.0, 4.0, 5.0, 6.0];
    let arr = ArrayD::from_shape_vec(IxDyn(shape), data).unwrap();
    let mut h = Host::new();
    let t = {
        let shape = IxDyn(&[2, 3]);
        let data: Vec<f32> = vec![1.0, 2.0, 3.0, 4.0, 5.0, 6.0];
        let data_array = &ArrayD::from_shape_vec(shape, data).unwrap();
        h.leaf(data_array)
    };

    assert_eq!(h.data[t], arr);
    assert_eq!(h.grad[t], zero_array(shape));
}

// Activations on tensors.

#[test]
fn activations_relu_ok() {
    let mut h = Host::new();
    let arr = arr22(vec![2., 1.2, -0.3, -1.]);
    let t = h.leaf(&arr);
    let res = relu(&mut h.graph, t).unwrap();
    assert_eq!(h.data_of(res), arr22(vec![2., 1.2, 0., 0.]));
}

#[test]
fn activations_relu_backward_ok() {
    let mut h = Host::new();
    let arr = arr22(vec![2., 1.2, -0.3, -1.]);
    let t = h.leaf(&arr);
    let res = relu(&mut h.graph, t).unwrap();
    assert_eq!(h.data_of(res), arr22(vec![2., 1.2, 0., 0.]));
    h.backward(res);
    assert_eq!(h.grad[t], arr22(vec![1., 1., 0., 0.]));
}

#[test]
fn activations_tanh_ok() {
    let mut h = Host::new();
    let arr = arr22(vec![0., 0.7, 0., 0.7]);
    let t = h.leaf(&arr);
    let res = tanh(&mut h.graph, t).unwrap();
    assert_eq!(h.data_of(res), arr22(vec![0., 0.6043678, 0., 0.6043678]));
}

#[test]
fn activations_tanh_backward_ok() {
    let mut h = Host::new();
    let arr = arr22(vec![0., 0.8814, 0., 0.8814]);
    let t = h.leaf(&arr);
    let res = tanh(&mut h.graph, t).unwrap();
    assert_eq!(h.data_of(res), arr22(vec![0., 0.70712, 0., 0.70712]));
    h.backward(res);
    assert_eq!(h.grad[t], arr22(vec![1., 0.49998128, 1., 0.49998128]));
}

// Operations on scalars.

#[test]
fn mod_add_ok() {
    let mut h = Host::new();
    let v1 = h.scalar(27.0);
    let v2 = h.scalar(23.0);
    let v3 = add(&mut h.graph, v1, v2).unwrap();
    assert_eq!(h.value_of(v3), 50.0);
}

#[test]
fn mod_add_backward_ok() {
    let mut h = Host::new();
    let v1 = h.scalar(21.0);
    let v2 = h.scalar(12.0);
    let v3 = add(&mut h.graph, v1, v2).unwrap();
    assert_eq!(h.value_of(v3), 33.0);

    h.backward(v3);
    assert_eq!(h.grad_of(v1), 1.0);
    assert_eq!(h.grad_of(v2), 1.0);
}

#[test]
fn mod_diff_ok() {
    let mut h = Host::new();
    let v1 = h.scalar(27.0);
    let v2 = h.scalar(23.0);
    let v3 = diff(&mut h.graph, v1, v2).unwrap();
    assert_eq!(h.value_of(v3), 4.0);
}

#[test]
fn mod_diff_backward_ok() {
    let mut h = Host::new();
    let v1 = h.scalar(21.0);
    let v2 = h.scalar(12.0);
    let v3 = diff(&mut h.graph, v1, v2).unwrap();
    assert_eq!(h.value_of(v3), 9.0);

    h.backward(v3);
    assert_eq!(h.grad_of(v1), 1.0);
    assert_eq!(h.grad_of(v2), -1.0);
}

#[test]
fn mod_mul_ok() {
    let mut h = Host::new();
    let v1 = h.scalar(2.0);
    let v2 = h.scalar(6.0);
    let v3 = mul(&mut h.graph, v1, v2).unwrap();
    assert_eq!(h.value_of(v3), 12.0);
}

#[test]
fn mod_mul_backward_ok() {
    let mut h = Host::new();
    let v1 = h.scalar(2.0);
    let v2 = h.scalar(6.0);
    let v3 = mul(&mut h.graph, v1, v2).unwrap();
    assert_eq!(h.value_of(v3), 12.0);

    h.backward(v3);
    assert_eq!(h.grad_of(v1), 6.0);
    assert_eq!(h.grad_of(v2), 2.0);
}

#[test]
fn mod_pow_ok() {
    let mut h = Host::new();
    let v = h.scalar(3.0);
    let res = pow(&mut h.graph, v, 2.0f32.to_bits()).unwrap();
    assert_eq!(h.value_of(res), 9.0);
}

#[test]
fn mod_pow_backward_ok() {
    let mut h = Host::new();
    let v = h.scalar(3.0);
    let res = pow(&mut h.graph, v, 2.0f32.to_bits()).unwrap();
    assert_eq!(h.value_of(res), 9.0);

    h.backward(res);
    assert_eq!(h.grad_of(v), 6.0);
}

#[test]
fn mod_relu_ok() {
    // Test negative input
    let mut h = Host::new();
    let v1 = h.scalar(-2.0);
    let v2 = relu(&mut h.graph, v1).unwrap();
    assert_eq!(h.value_of(v2), 0.0);

    // Test positive input
    let v1 = h.scalar(0.7);
    let v2 = relu(&mut h.graph, v1).unwrap();
    assert_eq!(h.value_of(v2), 0.7);
}

#[test]
fn mod_relu_backward_ok() {
    // Test negative input
    let mut h = Host::new();
    let input = h.scalar(-1.0);
    let out = relu(&mut h.graph, input).unwrap();
    assert_eq!(h.value_of(out), 0.0);

    h.backward(out);
    assert_eq!(h.grad_of(input), 0.0);

    // Test positive input
    let input = h.scalar(0.8814);
    let out = relu(&mut h.graph, input).unwrap();
    assert_eq!(h.value_of(out), 0.8814);

    h.backward(out);
    assert_eq!(h.grad_of(input), 1.0);
}

#[test]
fn mod_tanh_ok() {
    let mut h = Host::new();
    let v1 = h.scalar(0.0);
    let v2 = tanh(&mut h.graph, v1).unwrap();
    assert_eq!(h.value_of(v2), 0.0);

    let v1 = h.scalar(0.7);
    let v2 = tanh(&mut h.graph, v1).unwrap();
    assert_eq!(h.value_of(v2), 0.6043678);
}

#[test]
fn mod_tanh_backward_ok() {
    let mut h = Host::new();
    let input = h.scalar(0.8814);
    let out = tanh(&mut h.graph, input).unwrap();
    assert_eq!(h.value_of(out), 0.70712);

    h.backward(out);
    assert_eq!(h.grad_of(input), 0.49998128);
}

// Scalars once more, without the difference.

#[test]
fn lib_add_ok() {
    let mut h = Host::new();
    let v1 = h.scalar(27.0);
    let v2 = h.scalar(23.0);
    let v3 = add(&mut h.graph, v1, v2).unwrap();
    assert_eq!(h.value_of(v3), 50.0);
}

#[test]
fn lib_add_backward_ok() {
    let mut h = Host::new();
    let v1 = h.scalar(21.0);
    let v2 = h.scalar(12.0);
    let v3 = add(&mut h.graph, v1, v2).unwrap();
    assert_eq!(h.value_of(v3), 33.0);

    h.backward(v3);
    assert_eq!(h.grad_of(v1), 1.0);
    assert_eq!(h.grad_of(v2), 1.0);
}

#[test]
fn lib_mul_ok() {
    let mut h = Host::new();
    let v1 = h.scalar(2.0);
    let v2 = h.scalar(6.0);
    let v3 = mul(&mut h.graph, v1, v2).unwrap();
    assert_eq!(h.value_of(v3), 12.0);
}

#[test]
fn lib_mul_backward_ok() {
    let mut h = Host::new();
    let v1 = h.scalar(2.0);
    let v2 = h.scalar(6.0);
    let v3 = mul(&mut h.graph, v1, v2).unwrap();
    assert_eq!(h.value_of(v3), 12.0);

    h.backward(v3);
    assert_eq!(h.grad_of(v1), 6.0);
    assert_eq!(h.grad_of(v2), 2.0);
}

#[test]
fn lib_pow_ok() {
    let mut h = Host::new();
    let v = h.scalar(3.0);
    let res = pow(&mut h.graph, v, 2.0f32.to_bits()).unwrap();
    assert_eq!(h.value_of(res), 9.0);
}

#[test]
fn lib_pow_backward_ok() {
    let mut h = Host::new();
    let v = h.scalar(3.0);
    let res = pow(&mut h.graph, v, 2.0f32.to_bits()).unwrap();
    assert_eq!(h.value_of(res), 9.0);

    h.backward(res);
    assert_eq!(h.grad_of(v), 6.0);
}

#[test]
fn lib_relu_ok() {
    // Test negative input
    let mut h = Host::new();
    let v1 = h.scalar(-2.0);
    let v2 = relu(&mut h.graph, v1).unwrap();
    assert_eq!(h.value_of(v2), 0.0);

    // Test positive input
    let v1 = h.scalar(0.7);
    let v2 = relu(&mut h.graph, v1).unwrap();
    assert_eq!(h.value_of(v2), 0.7);
}

#[test]
fn lib_relu_backward_ok() {
    // Test negative input
    let mut h = Host::new();
    let input = h.scalar(-1.0);
    let out = relu(&mut h.graph, input).unwrap();
    assert_eq!(h.value_of(out), 0.0);

    h.backward(out);
    assert_eq!(h.grad_of(input), 0.0);

    // Test positive input
    let input = h.scalar(0.8814);
    let out = relu(&mut h.graph, input).unwrap();
    assert_eq!(h.value_of(out), 0.8814);

    h.backward(out);
    assert_eq!(h.grad_of(input), 1.0);
}

#[test]
fn lib_tanh_ok() {
    let mut h = Host::new();
    let v1 = h.scalar(0.0);
    let v2 = tanh(&mut h.graph, v1).unwrap();
    assert_eq!(h.value_of(v2), 0.0);

    let v1 = h.scalar(0.7);
    let v2 = tanh(&mut h.graph, v1).unwrap();
    assert_eq!(h.value_of(v2), 0.6043678);
}

#[test]
fn lib_tanh_backward_ok() {
    let mut h = Host::new();
    let input = h.scalar(0.8814);
    let out = tanh(&mut h.graph, input).unwrap();
    assert_eq!(h.value_of(out), 0.70712);

    h.backward(out);
    assert_eq!(h.grad_of(input), 0.49998128);
}

// The laws, on numbers.

#[test]
fn shared_operand_receives_both_contributions() {
    let mut h = Host::new();
    let a = h.scalar(3.0);
    let c = mul(&mut h.graph, a, a).unwrap();
    assert_eq!(h.value_of(c), 9.0);
    h.backward(c);
    assert_eq!(h.grad_of(a), 6.0);

    let tape = Tensor::backward(&h.graph, c).unwrap();
    let into_a = tape
        .iter()
        .filter(|s| matches!(s, Step::Accumulate { into, .. } if *into == a))
        .count();
    assert_eq!(into_a, 2);
}

#[test]
fn two_paths_to_one_leaf_add_up() {
    // f = (a * b) + (a + b), so df/da = b + 1 and df/db = a + 1.
    let mut h = Host::new();
    let a = h.scalar(2.0);
    let b = h.scalar(5.0);
    let p = mul(&mut h.graph, a, b).unwrap();
    let s = add(&mut h.graph, a, b).unwrap();
    let f = add(&mut h.graph, p, s).unwrap();
    assert_eq!(h.value_of(f), 17.0);
    h.backward(f);
    assert_eq!(h.grad_of(a), 6.0);
    assert_eq!(h.grad_of(b), 3.0);
}

#[test]
fn forward_is_repeatable() {
    let mut h = Host::new();
    let a = h.leaf(&arr23(vec![0.3, -0.6, 1.2, -0.6, -0.4, 2.2]));
    let b = h.leaf(&arr23(vec![0.9, 0.2, -0.4, -0.3, -0.2, 2.2]));
    let first = div(&mut h.graph, a, b).unwrap();
    let second = div(&mut h.graph, a, b).unwrap();
    let x = h.data_of(first);
    let y = h.data_of(second);
    assert_eq!(x.shape(), y.shape());
    for (p, q) in x.iter().zip(y.iter()) {
        assert_eq!(p.to_bits(), q.to_bits());
    }
    assert_eq!(h.data[a], arr23(vec![0.3, -0.6, 1.2, -0.6, -0.4, 2.2]));
    assert_eq!(h.grad[a], zero_array(&[2, 3]));
    let n1 = h.graph.get(first).unwrap();
    let n2 = h.graph.get(second).unwrap();
    assert_eq!(n1.op, n2.op);
    assert_eq!(n1.shape, n2.shape);
}

#[test]
fn backward_twice_on_a_product_doubles() {
    let mut h = Host::new();
    let a = h.scalar(2.0);
    let b = h.scalar(6.0);
    let p = mul(&mut h.graph, a, b).unwrap();
    h.backward(p);
    assert_eq!(h.grad_of(a), 6.0);
    assert_eq!(h.grad_of(b), 2.0);
    h.backward(p);
    assert_eq!(h.grad_of(p), 1.0);
    assert_eq!(h.grad_of(a), 12.0);
    assert_eq!(h.grad_of(b), 4.0);
}

#[test]
fn backward_twice_accumulates_in_inner_nodes_too() {
    // s = a * b + c. The second pass seeds s again, but the product still
    // holds what it received in the first pass and passes on the sum.
    let mut h = Host::new();
    let a = h.scalar(2.0);
    let b = h.scalar(6.0);
    let c = h.scalar(4.0);
    let p = mul(&mut h.graph, a, b).unwrap();
    let s = add(&mut h.graph, p, c).unwrap();
    h.backward(s);
    assert_eq!(h.grad_of(a), 6.0);
    assert_eq!(h.grad_of(b), 2.0);
    assert_eq!(h.grad_of(c), 1.0);
    h.backward(s);
    assert_eq!(h.grad_of(s), 1.0);
    assert_eq!(h.grad_of(p), 2.0);
    assert_eq!(h.grad_of(c), 2.0);
    assert_eq!(h.grad_of(a), 18.0);
    assert_eq!(h.grad_of(b), 6.0);
}

#[test]
fn reset_between_passes_gives_the_single_pass_again() {
    let mut h = Host::new();
    let a = h.scalar(2.0);
    let b = h.scalar(6.0);
    let c = h.scalar(4.0);
    let p = mul(&mut h.graph, a, b).unwrap();
    let s = add(&mut h.graph, p, c).unwrap();
    h.backward(s);
    let all: Vec<Step> = (0..h.graph.len()).map(|node| Step::Reset { node }).collect();
    h.run(&all);
    assert_eq!(h.grad_of(a), 0.0);
    h.backward(s);
    assert_eq!(h.grad_of(a), 6.0);
    assert_eq!(h.grad_of(b), 2.0);
    assert_eq!(h.grad_of(c), 1.0);
}

#[test]
fn backward_twice_on_a_sum_doubles() {
    let mut h = Host::new();
    let a = h.scalar(21.0);
    let b = h.scalar(12.0);
    let s = add(&mut h.graph, a, b).unwrap();
    h.backward(s);
    h.backward(s);
    assert_eq!(h.grad_of(a), 2.0);
    assert_eq!(h.grad_of(b), 2.0);
}

#[test]
fn dot_ok() {
    let mut h = Host::new();
    let a = h.leaf(&arr23(vec![1., 2., 3., 4., 5., 6.]));
    let b = h.leaf(&ArrayD::from_shape_vec(IxDyn(&[3, 2]), vec![1., 0., 0., 1., 2., 2.]).unwrap());
    let c = dot(&mut h.graph, a, b).unwrap();
    assert_eq!(h.graph.get(c).unwrap().shape, vec![2, 2]);
    assert_eq!(h.data_of(c), arr22(vec![7., 8., 16., 17.]));
}

#[test]
fn dot_gradients_keep_the_shapes_of_the_operands() {
    let mut h = Host::new();
    let a = h.leaf(&arr23(vec![1., 2., 3., 4., 5., 6.]));
    let b = h.leaf(
        &ArrayD::from_shape_vec(
            IxDyn(&[3, 4]),
            vec![1., 0., 0., 1., 2., 2., 1., 1., 0., 3., 0., 1.],
        )
        .unwrap(),
    );
    let c = dot(&mut h.graph, a, b).unwrap();
    assert_eq!(h.graph.get(c).unwrap().shape, vec![2, 4]);
    h.backward(c);
    assert_eq!(h.grad[a].shape(), &[2, 3]);
    assert_eq!(h.grad[b].shape(), &[3, 4]);
    // dC/dA = ones(2,4) . B^T: the row sums of B, in every row.
    assert_eq!(h.grad[a], arr23(vec![2., 6., 4., 2., 6., 4.]));
    // dC/dB = A^T . ones(2,4): the column sums of A, in every column.
    assert_eq!(
        h.grad[b],
        ArrayD::from_shape_vec(
            IxDyn(&[3, 4]),
            vec![5., 5., 5., 5., 7., 7., 7., 7., 9., 9., 9., 9.]
        )
        .unwrap()
    );
}

#[test]
fn squared_error_ok() {
    let mut h = Host::new();
    let y_true = h.scalar(1.0);
    let y_pred = h.scalar(4.0);
    let loss = squared_error(&mut h.graph, y_true, y_pred).unwrap();
    assert_eq!(h.value_of(loss), 9.0);
    h.backward(loss);
    assert_eq!(h.grad_of(y_true), -6.0);
    assert_eq!(h.grad_of(y_pred), 6.0);
}

#[test]
fn relu_has_no_gradient_at_zero() {
    let mut h = Host::new();
    let input = h.scalar(0.0);
    let out = relu(&mut h.graph, input).unwrap();
    assert_eq!(h.value_of(out), 0.0);
    h.backward(out);
    assert_eq!(h.grad_of(input), 0.0);
}

#[test]
fn division_by_zero_is_a_number_not_an_error() {
    let mut h = Host::new();
    let one = h.scalar(1.0);
    let zero = h.scalar(0.0);
    let q = div(&mut h.graph, one, zero).unwrap();
    assert!(h.value_of(q).is_infinite());
}

#[test]
fn a_leaf_starts_with_a_zero_gradient_and_no_operands() {
    let mut h = Host::new();
    let v = h.scalar(5.0);
    assert_eq!(h.grad_of(v), 0.0);
    assert_eq!(h.value_of(v), 5.0);
    let node = h.graph.get(v).unwrap();
    assert!(node.prev.is_empty());
    assert!(node.shape.is_empty());
    assert_eq!(Tensor::backward(&h.graph, v).unwrap(), vec![Step::Seed { node: v }]);
}

// Networks, on numbers.

impl Host {
    fn set(&mut self, handle: RTensor, values: Vec<f32>) {
        self.forward();
        let shape = self.data[handle].raw_dim();
        self.data[handle] = ArrayD::from_shape_vec(shape, values).unwrap();
    }
}

#[test]
fn neuron_computes_the_rectified_weighted_sum() {
    let mut h = Host::new();
    let neuron = Neuron::new(&mut h.graph, 2, true);
    let p = neuron.parameters();
    assert_eq!(p.len(), 3);
    h.set(p[0], vec![0.5]);
    h.set(p[1], vec![-2.0]);
    h.set(p[2], vec![1.0]);
    let x = vec![h.scalar(4.0), h.scalar(1.0)];
    let y = neuron.forward(&mut h.graph, &x).unwrap();
    assert_eq!(y.len(), 1);
    // 0.5 * 4 - 2 * 1 + 1 = 1
    assert_eq!(h.value_of(y[0]), 1.0);
    h.backward(y[0]);
    assert_eq!(h.grad_of(p[0]), 4.0);
    assert_eq!(h.grad_of(p[1]), 1.0);
    assert_eq!(h.grad_of(p[2]), 1.0);
    assert_eq!(h.grad_of(x[0]), 0.5);
    assert_eq!(h.grad_of(x[1]), -2.0);

    h.run(&neuron.zero_grad());
    assert_eq!(h.grad_of(p[0]), 0.0);
    assert_eq!(h.grad_of(p[1]), 0.0);
    assert_eq!(h.grad_of(p[2]), 0.0);
    assert_eq!(h.grad_of(x[0]), 0.5);
}

#[test]
fn rectified_neuron_is_cut_off_below_zero() {
    let mut h = Host::new();
    let neuron = Neuron::new(&mut h.graph, 1, true);
    let p = neuron.parameters();
    h.set(p[0], vec![-1.0]);
    h.set(p[1], vec![0.5]);
    let x = vec![h.scalar(3.0)];
    let y = neuron.forward(&mut h.graph, &x).unwrap();
    assert_eq!(h.value_of(y[0]), 0.0);
    h.backward(y[0]);
    assert_eq!(h.grad_of(p[0]), 0.0);

    let linear = Neuron::new(&mut h.graph, 1, false);
    let q = linear.parameters();
    h.set(q[0], vec![-1.0]);
    h.set(q[1], vec![0.5]);
    let y = linear.forward(&mut h.graph, &x).unwrap();
    assert_eq!(h.value_of(y[0]), -2.5);
}

#[test]
fn layer_has_one_output_for_each_neuron() {
    let mut h = Host::new();
    let layer = Layer::new(&mut h.graph, 2, 3, false);
    let p = layer.parameters();
    assert_eq!(p.len(), 9);
    for (i, handle) in p.iter().enumerate() {
        h.set(*handle, vec![i as f32]);
    }
    let x = vec![h.scalar(1.0), h.scalar(10.0)];
    let y = layer.forward(&mut h.graph, &x).unwrap();
    assert_eq!(y.len(), 3);
    // neuron j has weights 3j, 3j + 1 and bias 3j + 2
    assert_eq!(h.value_of(y[0]), 0.0 * 1.0 + 1.0 * 10.0 + 2.0);
    assert_eq!(h.value_of(y[1]), 3.0 * 1.0 + 4.0 * 10.0 + 5.0);
    assert_eq!(h.value_of(y[2]), 6.0 * 1.0 + 7.0 * 10.0 + 8.0);
}

#[test]
fn network_of_neurons_rectifies_all_layers_but_the_last() {
    let mut h = Host::new();
    let mlp = MLP::<Layer>::new(&mut h.graph, 1, vec![1, 1]);
    let p = mlp.parameters();
    assert_eq!(p.len(), 4);
    h.set(p[0], vec![1.0]);
    h.set(p[1], vec![-5.0]);
    h.set(p[2], vec![2.0]);
    h.set(p[3], vec![-3.0]);
    let x = vec![h.scalar(2.0)];
    let y = mlp.forward(&mut h.graph, &x).unwrap();
    // first layer: relu(2 - 5) = 0; second layer: 2 * 0 - 3, not rectified
    assert_eq!(h.value_of(y[0]), -3.0);

    let x = vec![h.scalar(7.0)];
    let y = mlp.forward(&mut h.graph, &x).unwrap();
    // first layer: relu(7 - 5) = 2; second layer: 2 * 2 - 3
    assert_eq!(h.value_of(y[0]), 1.0);
    h.run(&mlp.zero_grad());
    h.backward(y[0]);
    assert_eq!(h.grad_of(p[0]), 14.0);
    assert_eq!(h.grad_of(p[1]), 2.0);
    assert_eq!(h.grad_of(p[2]), 2.0);
    assert_eq!(h.grad_of(p[3]), 1.0);
}

#[test]
fn dense_layer_multiplies_by_its_matrix() {
    let mut h = Host::new();
    let dense = Dense::new(&mut h.graph, 3, 2);
    let p = dense.parameters();
    assert_eq!(p.len(), 2);
    assert_eq!(h.graph.get(p[0]).unwrap().shape, vec![3, 2]);
    assert_eq!(h.graph.get(p[1]).unwrap().shape, vec![2]);
    h.set(p[0], vec![1., 0., 0., 1., 2., 2.]);
    let x = h.leaf(&ArrayD::from_shape_vec(IxDyn(&[1, 3]), vec![2., 3., -1.]).unwrap());
    let y = dense.forward(&mut h.graph, &vec![x]).unwrap();
    assert_eq!(y.len(), 1);
    assert_eq!(
        h.data_of(y[0]),
        ArrayD::from_shape_vec(IxDyn(&[1, 2]), vec![0., 1.]).unwrap()
    );
}

#[test]
fn network_of_dense_layers_trains_on_one_sample() {
    let mut h = Host::new();
    let mlp = MLP::<Dense>::new(&mut h.graph, 3, vec![4, 4, 1]);
    let p = mlp.parameters();
    assert_eq!(p.len(), 6);
    h.set(p[0], vec![0.5; 12]);
    h.set(p[2], vec![0.25; 16]);
    h.set(p[4], vec![1.0; 4]);
    let x = h.leaf(&ArrayD::from_shape_vec(IxDyn(&[1, 3]), vec![2., 3., -1.]).unwrap());
    let target = h.leaf(&ArrayD::from_shape_vec(IxDyn(&[1, 1]), vec![1.]).unwrap());
    let y = mlp.forward(&mut h.graph, &vec![x]).unwrap();
    // every unit of the first layer is 0.5 * (2 + 3 - 1) = 2, of the second
    // 0.25 * 4 * 2 = 2, and the output is their sum, 8
    assert_eq!(
        h.data_of(y[0]),
        ArrayD::from_shape_vec(IxDyn(&[1, 1]), vec![8.]).unwrap()
    );
    let loss = squared_error(&mut h.graph, target, y[0]).unwrap();
    assert_eq!(
        h.data_of(loss),
        ArrayD::from_shape_vec(IxDyn(&[1, 1]), vec![49.]).unwrap()
    );
    h.run(&mlp.zero_grad());
    h.backward(loss);
    // d loss / d y = -2 * (1 - 8) = 14; the last matrix sees the units of
    // the second layer, all 2
    assert_eq!(
        h.grad[p[4]],
        ArrayD::from_shape_vec(IxDyn(&[4, 1]), vec![28.; 4]).unwrap()
    );
    assert_eq!(h.grad[p[0]].shape(), &[3, 4]);
    // the biases take no part in the forward pass
    assert_eq!(h.grad[p[1]], zero_array(&[4]));
}
