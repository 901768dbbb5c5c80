//! The four capabilities of an expression node, one trait each: type
//! validation, cost prediction, execution, and predicate evaluation.
//! Every implementation carries the same contract, stated over two
//! spec methods: what the operation demands, and what it returns.

use vstd::prelude::*;

use crate::errors::ErrorV;
use crate::evaluators::{object_view, pred_wf, spec_eval};
use crate::executors::{
    CoreQueryParameters, eres_view, exec_wf, params_wf, spec_execute_bag, spec_execute_projection,
    vp_view,
};
use crate::fp::Fp;
use crate::predictors::{predict_wf, pres_view, spec_predict_bag, spec_predict_projection};
use crate::store::{Properties, ResultSet, ResultSetV, Store};
use crate::symbols::{Bag, Predicate, Projection};
use crate::types::TypeV;
use crate::validators::{ValidationResult, spec_validate_bag, spec_validate_projection, vres_view};

verus! {

/// A node that can be type-checked.
pub trait Validator {
    /// What validation returns for this node.
    spec fn validate_spec(&self) -> Result<TypeV, ErrorV>;

    /// Type-check the node.
    fn validate(&self) -> (r: ValidationResult)
        ensures
            vres_view(r) == self.validate_spec(),
    ;
}

impl Validator for Bag {
    open spec fn validate_spec(&self) -> Result<TypeV, ErrorV> {
        spec_validate_bag(*self)
    }

    fn validate(&self) -> (r: ValidationResult) {
        Bag::validate(self)
    }
}

impl Validator for Projection {
    open spec fn validate_spec(&self) -> Result<TypeV, ErrorV> {
        spec_validate_projection(*self)
    }

    fn validate(&self) -> (r: ValidationResult) {
        Projection::validate(self)
    }
}

/// A node whose result size can be estimated.
pub trait Predictor {
    /// What the estimate demands of the node.
    spec fn predict_req(&self) -> bool;

    /// What the estimate returns.
    spec fn predict_spec(&self, db: Store) -> Result<u64, ErrorV>;

    /// Estimate the node's result volume against the store's catalog.
    fn predict(&self, db: &Store) -> (r: Result<Fp, crate::errors::QueryError>)
        requires
            self.predict_req(),
        ensures
            pres_view(r) == self.predict_spec(*db),
    ;
}

impl Predictor for Bag {
    open spec fn predict_req(&self) -> bool {
        predict_wf(*self)
    }

    open spec fn predict_spec(&self, db: Store) -> Result<u64, ErrorV> {
        spec_predict_bag(*self, db)
    }

    fn predict(&self, db: &Store) -> (r: Result<Fp, crate::errors::QueryError>) {
        Bag::predict(self, db)
    }
}

impl Predictor for Projection {
    open spec fn predict_req(&self) -> bool {
        match *self {
            Projection::Nifti(_, _, bag) => predict_wf(bag),
            Projection::JSON(_, _, bag) => predict_wf(bag),
        }
    }

    open spec fn predict_spec(&self, db: Store) -> Result<u64, ErrorV> {
        spec_predict_projection(*self, db)
    }

    fn predict(&self, db: &Store) -> (r: Result<Fp, crate::errors::QueryError>) {
        Projection::predict(self, db)
    }
}

/// A node that can be executed against a store.
pub trait Executor {
    /// What execution demands of the node.
    spec fn execute_req(&self) -> bool;

    /// What execution returns.
    spec fn execute_spec(
        &self,
        core: Seq<char>,
        db: Store,
        vp: Option<(Seq<Fp>, Seq<Fp>)>,
    ) -> Result<ResultSetV, ErrorV>;

    /// Execute the node against the named core.
    fn execute(&self, core_id: &str, parameters: &CoreQueryParameters) -> (r: Result<
        ResultSet,
        crate::errors::QueryError,
    >)
        requires
            self.execute_req(),
            params_wf(*parameters),
        ensures
            eres_view(r) == self.execute_spec(core_id@, *parameters.db, vp_view(*parameters)),
    ;
}

impl Executor for Bag {
    open spec fn execute_req(&self) -> bool {
        exec_wf(*self)
    }

    open spec fn execute_spec(
        &self,
        core: Seq<char>,
        db: Store,
        vp: Option<(Seq<Fp>, Seq<Fp>)>,
    ) -> Result<ResultSetV, ErrorV> {
        spec_execute_bag(*self, core, db, vp)
    }

    fn execute(&self, core_id: &str, parameters: &CoreQueryParameters) -> (r: Result<
        ResultSet,
        crate::errors::QueryError,
    >) {
        Bag::execute(self, core_id, parameters)
    }
}

impl Executor for Projection {
    open spec fn execute_req(&self) -> bool {
        *self matches Projection::JSON(_, _, bag) ==> exec_wf(bag)
    }

    open spec fn execute_spec(
        &self,
        core: Seq<char>,
        db: Store,
        vp: Option<(Seq<Fp>, Seq<Fp>)>,
    ) -> Result<ResultSetV, ErrorV> {
        spec_execute_projection(*self, core, db, vp)
    }

    fn execute(&self, core_id: &str, parameters: &CoreQueryParameters) -> (r: Result<
        ResultSet,
        crate::errors::QueryError,
    >) {
        Projection::execute(self, core_id, parameters)
    }
}

/// A node that says yes or no of one spatial object.
pub trait Evaluator {
    /// What evaluation demands of the node.
    spec fn eval_req(&self) -> bool;

    /// What evaluation returns.
    spec fn eval_spec(&self, space: Seq<char>, o: crate::store::ObjV) -> bool;

    /// Evaluate the node against one object: its space, its position,
    /// and its properties.
    fn eval(&self, object: (&String, &Vec<Fp>, &Properties)) -> (r: bool)
        requires
            self.eval_req(),
        ensures
            r == self.eval_spec(object.0@, object_view(object)),
    ;
}

impl Evaluator for Predicate {
    open spec fn eval_req(&self) -> bool {
        pred_wf(*self)
    }

    open spec fn eval_spec(&self, space: Seq<char>, o: crate::store::ObjV) -> bool {
        spec_eval(*self, space, o)
    }

    fn eval(&self, object: (&String, &Vec<Fp>, &Properties)) -> (r: bool) {
        Predicate::eval(self, object)
    }
}

} // verus!
