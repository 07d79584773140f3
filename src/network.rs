use crate::matrix::{dot, filled_grid, maps_to, product_grid, sum_grid, Matrix};
use vstd::prelude::*;
use vstd::wrapping::i64_specs::{wrapping_add, wrapping_mul};

verus! {

/// The ways building or running a network can be refused.
#[derive(Debug, Clone, Copy, PartialEq, Eq, Structural)]
pub enum NetworkError {
    /// Fewer than two layers, a layer of no neurons, or parameters whose
    /// shapes do not fit the layer sizes.
    ConfigurationError,
    /// The input vector's length differs from the size of the first layer.
    InputShapeError,
}

/// A fully connected feed-forward network.
///
/// Between layer `k` and layer `k + 1` stand a weight matrix of shape
/// `[sizes[k + 1], sizes[k]]` and a bias column of shape `[sizes[k + 1], 1]`,
/// which is added to every product of the weights with a column of inputs.
/// The activation `F` is applied to every entry after each transition.
pub struct Network<F> {
    layers: Vec<usize>,
    weights: Vec<Matrix>,
    biases: Vec<Matrix>,
    data: Vec<Matrix>,
    activation: F,
}

/// The column `[n, 1]` that holds the values of `v` from top to bottom.
pub open spec fn input_column(v: Seq<i64>) -> Seq<Seq<i64>> {
    Seq::new(v.len(), |k: int| seq![v[k]])
}

/// The values of the first column of `g`, from top to bottom.
pub open spec fn output_of(g: Seq<Seq<i64>>) -> Seq<i64> {
    Seq::new(g.len(), |k: int| g[k][0])
}

/// `y` is what one transition gives on the column `x`: the activation `f`
/// applied to each entry of `w · x + b`.
pub open spec fn layer_step<F: Fn(i64) -> i64>(f: F, w: Matrix, b: Matrix, x: Seq<Seq<i64>>, y: Seq<Seq<i64>>) -> bool {
    maps_to(
        f,
        sum_grid(product_grid(w@, x, w.rows as nat, w.cols as nat, 1), b@, w.rows as nat, 1),
        y,
        w.rows as nat,
        1,
    )
}

/// `m` is a well-formed matrix of the given shape.
pub open spec fn has_shape(m: Matrix, rows: nat, cols: nat) -> bool {
    m.wf() && m.rows == rows && m.cols == cols
}

/// Every entry of `m` lies in `[-1, 1]`.
pub open spec fn within_unit(m: Matrix) -> bool {
    forall|i: int, j: int| 0 <= i < m.rows && 0 <= j < m.cols ==> -1 <= #[trigger] m@[i][j] <= 1
}

/// The layer sizes are at least two, and none is zero.
pub open spec fn valid_layers(layers: Seq<usize>) -> bool {
    layers.len() >= 2 && forall|k: int| 0 <= k < layers.len() ==> #[trigger] layers[k] > 0
}

/// Weights and biases of the shapes that `layers` asks for.
pub open spec fn fits_layers(layers: Seq<usize>, weights: Seq<Matrix>, biases: Seq<Matrix>) -> bool {
    &&& weights.len() == layers.len() - 1
    &&& biases.len() == layers.len() - 1
    &&& forall|k: int| 0 <= k < weights.len() ==>
        has_shape(#[trigger] weights[k], layers[k + 1] as nat, layers[k] as nat)
    &&& forall|k: int| 0 <= k < biases.len() ==> has_shape(#[trigger] biases[k], layers[k + 1] as nat, 1)
}

/// Whether `m` is well formed and of the given shape.
fn check_shape(m: &Matrix, rows: usize, cols: usize) -> (r: bool)
    ensures
        r == has_shape(*m, rows as nat, cols as nat),
{
    if m.rows != rows || m.cols != cols || m.data.len() != rows {
        return false;
    }
    for i in 0..rows
        invariant
            m.data@.len() == rows,
            forall|k: int| 0 <= k < i ==> #[trigger] m.data@[k]@.len() == cols,
    {
        if m.data[i].len() != cols {
            return false;
        }
    }
    true
}

/// Whether no layer size is zero.
fn check_layers(layers: &Vec<usize>) -> (r: bool)
    ensures
        r == valid_layers(layers@),
{
    if layers.len() < 2 {
        return false;
    }
    for k in 0..layers.len()
        invariant
            forall|l: int| 0 <= l < k ==> #[trigger] layers@[l] > 0,
    {
        if layers[k] == 0 {
            return false;
        }
    }
    true
}

impl<F: Fn(i64) -> i64> Network<F> {
    /// The layer sizes, from input to output.
    pub closed spec fn spec_layers(&self) -> Seq<usize> {
        self.layers@
    }

    /// The weight matrix of each transition.
    pub closed spec fn spec_weights(&self) -> Seq<Matrix> {
        self.weights@
    }

    /// The bias column of each transition.
    pub closed spec fn spec_biases(&self) -> Seq<Matrix> {
        self.biases@
    }

    /// The columns that the latest forward pass went through, input first.
    pub closed spec fn spec_trail(&self) -> Seq<Matrix> {
        self.data@
    }

    /// The activation applied after each transition.
    pub closed spec fn spec_activation(&self) -> F {
        self.activation
    }

    /// Valid layer sizes, parameters that fit them, and an activation defined
    /// on every integer.
    pub open spec fn wf(&self) -> bool {
        &&& valid_layers(self.spec_layers())
        &&& fits_layers(self.spec_layers(), self.spec_weights(), self.spec_biases())
        &&& forall|x: i64| call_requires(self.spec_activation(), (x,))
    }

    /// `trail` is the sequence of columns that a forward pass on `inputs` goes
    /// through: the inputs as a column, then the output of each transition.
    pub open spec fn is_forward_pass(&self, inputs: Seq<i64>, trail: Seq<Matrix>) -> bool {
        &&& trail.len() == self.spec_layers().len()
        &&& forall|k: int| 0 <= k < trail.len() ==>
            has_shape(#[trigger] trail[k], self.spec_layers()[k] as nat, 1)
        &&& trail[0]@ == input_column(inputs)
        &&& forall|k: int| 0 <= k < trail.len() - 1 ==> layer_step(
            self.spec_activation(),
            self.spec_weights()[k],
            self.spec_biases()[k],
            #[trigger] trail[k]@,
            trail[k + 1]@,
        )
    }

    /// A network with the given layer sizes, each weight and bias entry drawn
    /// at random from `[-1, 1]`, and no forward pass recorded yet.
    pub fn new(layers: Vec<usize>, activation: F) -> (r: Result<Network<F>, NetworkError>)
        requires
            forall|x: i64| call_requires(activation, (x,)),
        ensures
            r is Err <==> !valid_layers(layers@),
            r is Err ==> r == Err::<Network<F>, NetworkError>(NetworkError::ConfigurationError),
            r matches Ok(n) ==> {
                &&& n.wf()
                &&& n.spec_layers() == layers@
                &&& n.spec_activation() == activation
                &&& n.spec_trail().len() == 0
                &&& forall|k: int| 0 <= k < n.spec_weights().len() ==> within_unit(#[trigger] n.spec_weights()[k])
                &&& forall|k: int| 0 <= k < n.spec_biases().len() ==> within_unit(#[trigger] n.spec_biases()[k])
            },
    {
        if !check_layers(&layers) {
            return Err(NetworkError::ConfigurationError);
        }
        let mut weights: Vec<Matrix> = Vec::new();
        let mut biases: Vec<Matrix> = Vec::new();
        for i in 0..layers.len() - 1
            invariant
                valid_layers(layers@),
                weights.len() == i,
                biases.len() == i,
                forall|k: int| 0 <= k < i ==>
                    has_shape(#[trigger] weights@[k], layers@[k + 1] as nat, layers@[k] as nat),
                forall|k: int| 0 <= k < i ==> has_shape(#[trigger] biases@[k], layers@[k + 1] as nat, 1),
                forall|k: int| 0 <= k < i ==> within_unit(#[trigger] weights@[k]),
                forall|k: int| 0 <= k < i ==> within_unit(#[trigger] biases@[k]),
        {
            weights.push(Matrix::random(layers[i + 1], layers[i]));
            biases.push(Matrix::random(layers[i + 1], 1));
        }
        Ok(Network { layers, weights, biases, data: Vec::new(), activation })
    }

    /// A network with the given layer sizes and parameters, refused unless the
    /// sizes are valid and each weight and bias has the shape they ask for.
    pub fn with_parameters(layers: Vec<usize>, weights: Vec<Matrix>, biases: Vec<Matrix>, activation: F) -> (r:
        Result<Network<F>, NetworkError>)
        requires
            forall|x: i64| call_requires(activation, (x,)),
        ensures
            r is Err <==> !(valid_layers(layers@) && fits_layers(layers@, weights@, biases@)),
            r is Err ==> r == Err::<Network<F>, NetworkError>(NetworkError::ConfigurationError),
            r matches Ok(n) ==> {
                &&& n.wf()
                &&& n.spec_layers() == layers@
                &&& n.spec_weights() == weights@
                &&& n.spec_biases() == biases@
                &&& n.spec_activation() == activation
                &&& n.spec_trail().len() == 0
            },
    {
        if !check_layers(&layers) || weights.len() != layers.len() - 1 || biases.len() != layers.len() - 1 {
            return Err(NetworkError::ConfigurationError);
        }
        for k in 0..weights.len()
            invariant
                valid_layers(layers@),
                weights.len() == layers.len() - 1,
                biases.len() == layers.len() - 1,
                forall|l: int| 0 <= l < k ==>
                    has_shape(#[trigger] weights@[l], layers@[l + 1] as nat, layers@[l] as nat),
                forall|l: int| 0 <= l < k ==> has_shape(#[trigger] biases@[l], layers@[l + 1] as nat, 1),
        {
            if !check_shape(&weights[k], layers[k + 1], layers[k]) || !check_shape(&biases[k], layers[k + 1], 1) {
                return Err(NetworkError::ConfigurationError);
            }
        }
        Ok(Network { layers, weights, biases, data: Vec::new(), activation })
    }

    /// Runs the inputs through every transition and returns the output layer's
    /// values. The columns passed through are recorded, input first; on an
    /// input of the wrong length nothing changes.
    pub fn feed_forward(&mut self, inputs: Vec<i64>) -> (r: Result<Vec<i64>, NetworkError>)
        requires
            old(self).wf(),
        ensures
            final(self).wf(),
            final(self).spec_layers() == old(self).spec_layers(),
            final(self).spec_weights() == old(self).spec_weights(),
            final(self).spec_biases() == old(self).spec_biases(),
            final(self).spec_activation() == old(self).spec_activation(),
            r is Err <==> inputs@.len() != old(self).spec_layers()[0],
            r is Err ==> r == Err::<Vec<i64>, NetworkError>(NetworkError::InputShapeError)
                && final(self).spec_trail() == old(self).spec_trail(),
            r matches Ok(out) ==> {
                &&& final(self).is_forward_pass(inputs@, final(self).spec_trail())
                &&& out@ == output_of(final(self).spec_trail().last()@)
            },
    {
        if inputs.len() != self.layers[0] {
            return Err(NetworkError::InputShapeError);
        }
        let ghost input_values = inputs@;
        let row = match Matrix::from(vec![inputs]) {
            Ok(m) => m,
            Err(_) => return Err(NetworkError::InputShapeError),
        };
        let column = row.transpose();
        assert(column@ =~~= input_column(input_values));
        let mut trail: Vec<Matrix> = Vec::new();
        trail.push(column);
        for i in 0..self.layers.len() - 1
            invariant
                self.wf(),
                trail.len() == i + 1,
                forall|k: int| 0 <= k <= i ==> has_shape(#[trigger] trail@[k], self.spec_layers()[k] as nat, 1),
                trail@[0]@ == input_column(input_values),
                forall|k: int| 0 <= k < i ==> layer_step(
                    self.spec_activation(),
                    self.spec_weights()[k],
                    self.spec_biases()[k],
                    #[trigger] trail@[k]@,
                    trail@[k + 1]@,
                ),
        {
            let next = self.transition(i, &trail[i]);
            trail.push(next);
        }
        let last = trail.len() - 1;
        let out = first_column(&trail[last]);
        self.data = trail;
        Ok(out)
    }

    /// One transition: the activation applied to each entry of
    /// `weights[i] · x + biases[i]`.
    fn transition(&self, i: usize, x: &Matrix) -> (r: Matrix)
        requires
            self.wf(),
            i < self.spec_layers().len() - 1,
            has_shape(*x, self.spec_layers()[i as int] as nat, 1),
        ensures
            has_shape(r, self.spec_layers()[i + 1] as nat, 1),
            layer_step(self.spec_activation(), self.spec_weights()[i as int], self.spec_biases()[i as int], x@, r@),
    {
        let w = &self.weights[i];
        let b = &self.biases[i];
        assert(has_shape(*w, self.spec_layers()[i + 1] as nat, self.spec_layers()[i as int] as nat));
        assert(has_shape(*b, self.spec_layers()[i + 1] as nat, 1));
        let product = w.multiply(x);
        let product = match product {
            Ok(m) => m,
            Err(_) => {
                assert(false);
                Matrix::zeros(0, 0)
            },
        };
        let pre = match product.add(b) {
            Ok(m) => m,
            Err(_) => {
                assert(false);
                Matrix::zeros(0, 0)
            },
        };
        assert(self.spec_activation() == self.activation);
        assert(forall|v: i64| call_requires(self.activation, (v,)));
        pre.map(&self.activation)
    }

    /// The layer sizes, from input to output.
    pub fn layers(&self) -> (r: &Vec<usize>)
        ensures
            r@ == self.spec_layers(),
    {
        &self.layers
    }

    /// The weight matrix of each transition.
    pub fn weights(&self) -> (r: &Vec<Matrix>)
        ensures
            r@ == self.spec_weights(),
    {
        &self.weights
    }

    /// The bias column of each transition.
    pub fn biases(&self) -> (r: &Vec<Matrix>)
        ensures
            r@ == self.spec_biases(),
    {
        &self.biases
    }

    /// The columns that the latest forward pass went through, input first.
    pub fn layer_activations(&self) -> (r: &Vec<Matrix>)
        ensures
            r@ == self.spec_trail(),
    {
        &self.data
    }
}

/// The entries of the first column of `m`, from top to bottom.
fn first_column(m: &Matrix) -> (r: Vec<i64>)
    requires
        m.wf(),
        m.cols >= 1,
    ensures
        r@ == output_of(m@),
{
    let mut r: Vec<i64> = Vec::new();
    for k in 0..m.rows
        invariant
            m.wf(),
            m.cols >= 1,
            r.len() == k,
            forall|l: int| 0 <= l < k ==> #[trigger] r@[l] == m@[l][0],
    {
        r.push(m.data[k][0]);
    }
    assert(r@ =~= output_of(m@));
    r
}


/// A running sum against a row of zeros is zero.
proof fn lemma_dot_zero_row(w: Seq<Seq<i64>>, x: Seq<Seq<i64>>, i: int, j: int, n: nat)
    requires
        forall|k: int| 0 <= k < n ==> #[trigger] w[i][k] == 0,
    ensures
        dot(w, x, i, j, n) == 0,
    decreases n,
{
    if n > 0 {
        lemma_dot_zero_row(w, x, i, j, (n - 1) as nat);
        let y = x[n - 1][j];
        assert(0 * y == 0);
        assert(wrapping_mul(0, y) == 0);
        assert(wrapping_add(0, 0) == 0);
    }
}

/// When every weight and every bias is zero, each output of a forward pass is
/// what the activation gives on zero, whatever the inputs were.
pub proof fn lemma_zero_parameters_output<F: Fn(i64) -> i64>(net: Network<F>, inputs: Seq<i64>, trail: Seq<Matrix>)
    requires
        net.wf(),
        forall|k: int| 0 <= k < net.spec_weights().len() ==>
            (#[trigger] net.spec_weights()[k])@ == filled_grid(net.spec_weights()[k].rows as nat, net.spec_weights()[k].cols as nat, 0),
        forall|k: int| 0 <= k < net.spec_biases().len() ==>
            (#[trigger] net.spec_biases()[k])@ == filled_grid(net.spec_biases()[k].rows as nat, net.spec_biases()[k].cols as nat, 0),
        net.is_forward_pass(inputs, trail),
    ensures
        output_of(trail.last()@).len() == net.spec_layers().last(),
        forall|k: int| 0 <= k < output_of(trail.last()@).len() ==>
            call_ensures(net.spec_activation(), (0i64,), #[trigger] output_of(trail.last()@)[k]),
{
    let l = (net.spec_layers().len() - 2) as int;
    let w = net.spec_weights()[l];
    let b = net.spec_biases()[l];
    let x = trail[l]@;
    let y = trail[l + 1]@;
    assert(has_shape(trail[l + 1], net.spec_layers()[l + 1] as nat, 1));
    assert(layer_step(net.spec_activation(), w, b, x, y));
    assert forall|r: int| 0 <= r < w.rows implies call_ensures(net.spec_activation(), (0i64,), #[trigger] y[r][0]) by {
        assert forall|k: int| 0 <= k < w.cols implies #[trigger] w@[r][k] == 0 by {
            assert(w@[r][k] == filled_grid(w.rows as nat, w.cols as nat, 0)[r][k]);
        }
        lemma_dot_zero_row(w@, x, r, 0, w.cols as nat);
        assert(b@[r][0] == filled_grid(b.rows as nat, b.cols as nat, 0)[r][0]);
        assert(wrapping_add(0, 0) == 0);
    }
}

} // verus!
