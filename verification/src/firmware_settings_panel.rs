//! Firmware parameters of a controller and the panel that holds them:
//! values with their defaults, read-only flags, a backup and a reset.
//!
//! The panel keeps its parameters in the order they were added, one per
//! code: adding a parameter whose code is already present replaces it.

use vstd::prelude::*;
use crate::text::push_str;

verus! {

/// Kind of value a firmware parameter holds
#[derive(Debug, Clone, Copy, PartialEq, Eq, Structural)]
pub enum ParameterType {
    /// Whole number
    Integer,
    /// Decimal number
    Float,
    /// On/off flag (0 or 1)
    Boolean,
    /// Free text
    String,
}

/// A firmware parameter as plain values.
pub struct ParamSpec {
    pub code: Seq<char>,
    pub name: Seq<char>,
    pub value: Seq<char>,
    pub default_value: Seq<char>,
    pub param_type: ParameterType,
    pub range: Option<(int, int)>,
    pub unit: Option<Seq<char>>,
    pub description: Option<Seq<char>>,
    pub read_only: bool,
}

/// A firmware parameter (a `$` setting of the controller)
#[derive(Debug)]
pub struct FirmwareParameter {
    /// Setting code, such as "$100"
    pub code: String,
    /// Human-readable name
    pub name: String,
    /// Current value, as text
    pub value: String,
    /// Default value, as text
    pub default_value: String,
    /// Kind of value
    pub param_type: ParameterType,
    /// Allowed range (whole-number bounds), if any
    pub range: Option<(i64, i64)>,
    /// Unit of the value, if any
    pub unit: Option<String>,
    /// Description, if any
    pub description: Option<String>,
    /// Whether the controller refuses changes to it
    pub read_only: bool,
}

/// The plain values of a parameter.
pub open spec fn param_spec(p: FirmwareParameter) -> ParamSpec {
    ParamSpec {
        code: p.code@,
        name: p.name@,
        value: p.value@,
        default_value: p.default_value@,
        param_type: p.param_type,
        range: match p.range {
            Some(r) => Some((r.0 as int, r.1 as int)),
            None => None,
        },
        unit: match p.unit {
            Some(u) => Some(u@),
            None => None,
        },
        description: match p.description {
            Some(d) => Some(d@),
            None => None,
        },
        read_only: p.read_only,
    }
}

/// The plain values of a list of parameters.
pub open spec fn params_view(ps: Seq<FirmwareParameter>) -> Seq<ParamSpec> {
    ps.map_values(|p: FirmwareParameter| param_spec(p))
}

fn clone_opt_string(s: &Option<String>) -> (r: Option<String>)
    ensures
        r == *s,
{
    match s {
        Some(t) => Some(t.clone()),
        None => None,
    }
}

impl Clone for FirmwareParameter {
    fn clone(&self) -> (r: Self)
        ensures
            r == *self,
    {
        FirmwareParameter {
            code: self.code.clone(),
            name: self.name.clone(),
            value: self.value.clone(),
            default_value: self.default_value.clone(),
            param_type: self.param_type,
            range: self.range,
            unit: clone_opt_string(&self.unit),
            description: clone_opt_string(&self.description),
            read_only: self.read_only,
        }
    }
}

impl FirmwareParameter {
    /// A writable text parameter whose value is also its default.
    pub fn new(code: &str, name: &str, value: &str) -> (p: Self)
        ensures
            param_spec(p) == (ParamSpec {
                code: code@,
                name: name@,
                value: value@,
                default_value: value@,
                param_type: ParameterType::String,
                range: None,
                unit: None,
                description: None,
                read_only: false,
            }),
    {
        FirmwareParameter {
            code: code.to_owned(),
            name: name.to_owned(),
            value: value.to_owned(),
            default_value: value.to_owned(),
            param_type: ParameterType::String,
            range: None,
            unit: None,
            description: None,
            read_only: false,
        }
    }

    /// The same parameter with another value type.
    pub fn with_type(self, param_type: ParameterType) -> (p: Self)
        ensures
            param_spec(p) == (ParamSpec { param_type, ..param_spec(self) }),
    {
        FirmwareParameter { param_type, ..self }
    }

    /// The same parameter with an allowed range.
    pub fn with_range(self, min: i64, max: i64) -> (p: Self)
        ensures
            param_spec(p) == (ParamSpec { range: Some((min as int, max as int)), ..param_spec(self) }),
    {
        FirmwareParameter { range: Some((min, max)), ..self }
    }

    /// The same parameter with a unit.
    pub fn with_unit(self, unit: &str) -> (p: Self)
        ensures
            param_spec(p) == (ParamSpec { unit: Some(unit@), ..param_spec(self) }),
    {
        FirmwareParameter { unit: Some(unit.to_owned()), ..self }
    }

    /// The same parameter with a description.
    pub fn with_description(self, description: &str) -> (p: Self)
        ensures
            param_spec(p) == (ParamSpec { description: Some(description@), ..param_spec(self) }),
    {
        FirmwareParameter { description: Some(description.to_owned()), ..self }
    }

    /// The same parameter, read-only.
    pub fn read_only(self) -> (p: Self)
        ensures
            param_spec(p) == (ParamSpec { read_only: true, ..param_spec(self) }),
    {
        FirmwareParameter { read_only: true, ..self }
    }

    /// The value differs from the default.
    pub fn is_modified(&self) -> (b: bool)
        ensures
            b == (self.value@ != self.default_value@),
    {
        !self.value.eq(&self.default_value)
    }
}

/// The index of the first parameter with this code, or the length.
pub open spec fn first_code(ps: Seq<ParamSpec>, code: Seq<char>) -> int
    decreases ps.len(),
{
    if ps.len() == 0 {
        0
    } else if ps[0].code == code {
        0
    } else {
        1 + first_code(ps.drop_first(), code)
    }
}

/// `first_code` is an index at most the length, and names the first match.
pub proof fn lemma_first_code(ps: Seq<ParamSpec>, code: Seq<char>)
    ensures
        0 <= first_code(ps, code) <= ps.len(),
        first_code(ps, code) < ps.len() ==> ps[first_code(ps, code)].code == code,
        forall|i: int| 0 <= i < first_code(ps, code) ==> ps[i].code != code,
    decreases ps.len(),
{
    if ps.len() > 0 && ps[0].code != code {
        lemma_first_code(ps.drop_first(), code);
        assert forall|i: int| 0 <= i < first_code(ps, code) implies ps[i].code != code by {
            if i > 0 {
                assert(ps[i] == ps.drop_first()[i - 1]);
            }
        }
    }
}

/// The parameters after `p` was added: it replaces the parameter with its
/// code, or goes at the end.
pub open spec fn with_param(ps: Seq<ParamSpec>, p: ParamSpec) -> Seq<ParamSpec> {
    let k = first_code(ps, p.code);
    if k < ps.len() {
        ps.update(k, p)
    } else {
        ps.push(p)
    }
}

/// The parameters after each of `added` was added, in order.
pub open spec fn with_params(ps: Seq<ParamSpec>, added: Seq<ParamSpec>) -> Seq<ParamSpec>
    decreases added.len(),
{
    if added.len() == 0 {
        ps
    } else {
        with_param(with_params(ps, added.drop_last()), added.last())
    }
}

/// The parameters whose value differs from their default, in order.
pub open spec fn modified_params(ps: Seq<ParamSpec>) -> Seq<ParamSpec>
    decreases ps.len(),
{
    if ps.len() == 0 {
        Seq::empty()
    } else if ps.last().value != ps.last().default_value {
        modified_params(ps.drop_last()).push(ps.last())
    } else {
        modified_params(ps.drop_last())
    }
}

/// Every parameter with its value set back to its default.
pub open spec fn reset_params(ps: Seq<ParamSpec>) -> Seq<ParamSpec> {
    ps.map_values(|p: ParamSpec| ParamSpec { value: p.default_value, ..p })
}

/// The value of the parameter with this code, if there is one.
pub open spec fn value_of(ps: Seq<ParamSpec>, code: Seq<char>) -> Option<Seq<char>> {
    let k = first_code(ps, code);
    if 0 <= k < ps.len() {
        Some(ps[k].value)
    } else {
        None
    }
}

/// No two parameters share a code.
pub open spec fn distinct_codes(ps: Seq<ParamSpec>) -> bool {
    forall|i: int, j: int| 0 <= i < j < ps.len() ==> ps[i].code != ps[j].code
}

/// The modified parameters are exactly the parameters whose value differs
/// from their default, in their order: every such parameter is listed, and
/// every listed parameter is one.
pub proof fn law_modified_are_the_changed(ps: Seq<ParamSpec>)
    ensures
        modified_params(ps) == ps.filter(|p: ParamSpec| p.value != p.default_value),
        forall|i: int|
            0 <= i < ps.len() && ps[i].value != ps[i].default_value ==> modified_params(ps).contains(
                #[trigger] ps[i],
            ),
        forall|k: int|
            0 <= k < modified_params(ps).len() ==> (#[trigger] modified_params(ps)[k]).value
                != modified_params(ps)[k].default_value,
    decreases ps.len(),
{
    let pred = |p: ParamSpec| p.value != p.default_value;
    reveal_with_fuel(Seq::filter, 1);
    if ps.len() > 0 {
        law_modified_are_the_changed(ps.drop_last());
        assert(ps.drop_last().filter(pred) == ps.drop_last().filter(|p: ParamSpec| p.value != p.default_value));
    }
    assert(modified_params(ps) == ps.filter(pred));
    assert forall|i: int| 0 <= i < ps.len() && ps[i].value != ps[i].default_value implies modified_params(
        ps,
    ).contains(#[trigger] ps[i]) by {
        ps.lemma_filter_contains(pred, i);
    }
    assert forall|k: int| 0 <= k < modified_params(ps).len() implies (#[trigger] modified_params(ps)[k]).value
        != modified_params(ps)[k].default_value by {
        ps.lemma_filter_pred(pred, k);
    }
}

/// After every parameter is reset to its default, no parameter is modified.
pub proof fn law_reset_leaves_nothing_modified(ps: Seq<ParamSpec>)
    ensures
        modified_params(reset_params(ps)).len() == 0,
    decreases ps.len(),
{
    if ps.len() > 0 {
        law_reset_leaves_nothing_modified(ps.drop_last());
        assert(reset_params(ps).drop_last() =~= reset_params(ps.drop_last()));
    }
}

/// An index that is at most the length, names a match when it is below the
/// length, and follows only non-matches is `first_code`.
pub proof fn lemma_first_code_unique(ps: Seq<ParamSpec>, code: Seq<char>, j: int)
    requires
        0 <= j <= ps.len(),
        j < ps.len() ==> ps[j].code == code,
        forall|i: int| 0 <= i < j ==> ps[i].code != code,
    ensures
        first_code(ps, code) == j,
    decreases ps.len(),
{
    if ps.len() > 0 && j > 0 {
        assert(ps[0].code != code);
        assert forall|i: int| 0 <= i < j - 1 implies ps.drop_first()[i].code != code by {
            assert(ps.drop_first()[i] == ps[i + 1]);
        }
        lemma_first_code_unique(ps.drop_first(), code, j - 1);
    }
}

/// Once a value has been set without an error, reading the parameter gives
/// that value, and the parameter counts as modified exactly when the value
/// differs from its default.
pub proof fn law_set_value_then_read(ps: Seq<ParamSpec>, code: Seq<char>, value: Seq<char>)
    requires
        set_value_error(ps, code) is None,
    ensures
        ({
            let k = first_code(ps, code);
            let after = ps.update(k, ParamSpec { value: value, ..ps[k] });
            &&& value_of(after, code) == Some(value)
            &&& after[k].code == code
            &&& (after[k].value != after[k].default_value) == (value != ps[k].default_value)
        }),
{
    lemma_first_code(ps, code);
    let k = first_code(ps, code);
    let after = ps.update(k, ParamSpec { value: value, ..ps[k] });
    lemma_first_code_unique(after, code, k);
}

/// Adding a parameter keeps the codes distinct, and the added parameter is
/// what its code then finds.
pub proof fn law_add_keeps_codes_distinct(ps: Seq<ParamSpec>, p: ParamSpec)
    ensures
        distinct_codes(ps) ==> distinct_codes(with_param(ps, p)),
        value_of(with_param(ps, p), p.code) == Some(p.value),
{
    lemma_first_code(ps, p.code);
    let k = first_code(ps, p.code);
    let w = with_param(ps, p);
    lemma_first_code_unique(w, p.code, k);
    if distinct_codes(ps) {
        assert forall|i: int, j: int| 0 <= i < j < w.len() implies w[i].code != w[j].code by {
            if j == k || (k == ps.len() && j == ps.len()) {
                assert(ps[i].code != p.code);
            } else if i == k {
                assert(ps[k].code == p.code);
                assert(ps[i].code != ps[j].code);
            } else {
                assert(ps[i].code != ps[j].code);
            }
        }
    }
}

/// Why a value could not be set.
pub open spec fn set_value_error(ps: Seq<ParamSpec>, code: Seq<char>) -> Option<Seq<char>> {
    let k = first_code(ps, code);
    if k >= ps.len() {
        Some("Parameter not found: "@ + code)
    } else if ps[k].read_only {
        Some("Parameter is read-only: "@ + code)
    } else {
        None
    }
}

/// Firmware settings panel
#[derive(Debug)]
pub struct FirmwareSettingsPanel {
    /// Firmware name, such as "GRBL"
    pub firmware_type: String,
    /// Firmware version
    pub firmware_version: String,
    /// Parameters, one per code, in the order they were added
    parameters: Vec<FirmwareParameter>,
    /// Saved parameters, if a backup was made
    backup: Option<Vec<FirmwareParameter>>,
}

/// A copy of a list of parameters.
fn copy_params(v: &Vec<FirmwareParameter>) -> (r: Vec<FirmwareParameter>)
    ensures
        r@ == v@,
{
    let mut r: Vec<FirmwareParameter> = Vec::new();
    let mut i: usize = 0;
    while i < v.len()
        invariant
            i <= v@.len(),
            r@ == v@.take(i as int),
        decreases v@.len() - i,
    {
        r.push(v[i].clone());
        proof {
            assert(v@.take(i + 1) == v@.take(i as int).push(v@[i as int]));
        }
        i = i + 1;
    }
    proof {
        assert(v@.take(v@.len() as int) == v@);
    }
    r
}

impl Clone for FirmwareSettingsPanel {
    fn clone(&self) -> (r: Self)
        ensures
            r.spec_type() == self.spec_type(),
            r.spec_version() == self.spec_version(),
            r.spec_parameters() == self.spec_parameters(),
            r.spec_backup() == self.spec_backup(),
    {
        FirmwareSettingsPanel {
            firmware_type: self.firmware_type.clone(),
            firmware_version: self.firmware_version.clone(),
            parameters: copy_params(&self.parameters),
            backup: match &self.backup {
                Some(b) => Some(copy_params(b)),
                None => None,
            },
        }
    }
}

impl FirmwareSettingsPanel {
    /// The firmware name.
    pub closed spec fn spec_type(self) -> Seq<char> {
        self.firmware_type@
    }

    /// The firmware version.
    pub closed spec fn spec_version(self) -> Seq<char> {
        self.firmware_version@
    }

    /// The parameters, as plain values.
    pub closed spec fn spec_parameters(self) -> Seq<ParamSpec> {
        params_view(self.parameters@)
    }

    /// The saved parameters, as plain values.
    pub closed spec fn spec_backup(self) -> Option<Seq<ParamSpec>> {
        match self.backup {
            Some(b) => Some(params_view(b@)),
            None => None,
        }
    }

    /// Create an empty panel for this firmware
    pub fn new(firmware_type: &str, firmware_version: &str) -> (p: Self)
        ensures
            p.spec_type() == firmware_type@,
            p.spec_version() == firmware_version@,
            p.spec_parameters().len() == 0,
            p.spec_backup() is None,
    {
        FirmwareSettingsPanel {
            firmware_type: firmware_type.to_owned(),
            firmware_version: firmware_version.to_owned(),
            parameters: Vec::new(),
            backup: None,
        }
    }

    /// The firmware name.
    pub fn firmware_type_str(&self) -> (r: &str)
        ensures
            r@ == self.spec_type(),
    {
        self.firmware_type.as_str()
    }

    /// The firmware version.
    pub fn firmware_version_str(&self) -> (r: &str)
        ensures
            r@ == self.spec_version(),
    {
        self.firmware_version.as_str()
    }

    /// Sets the firmware name and version.
    pub fn set_firmware(&mut self, firmware_type: &str, firmware_version: &str)
        ensures
            final(self).spec_type() == firmware_type@,
            final(self).spec_version() == firmware_version@,
            final(self).spec_parameters() == old(self).spec_parameters(),
            final(self).spec_backup() == old(self).spec_backup(),
    {
        self.firmware_type = firmware_type.to_owned();
        self.firmware_version = firmware_version.to_owned();
    }

    /// The position of the parameter with this code.
    fn position_of(&self, code: &str) -> (k: usize)
        ensures
            k == first_code(self.spec_parameters(), code@),
            k <= self.parameters@.len(),
    {
        let target = crate::text::chars_of(code);
        let ghost ps = self.spec_parameters();
        proof {
            lemma_first_code(ps, code@);
        }
        let mut i: usize = 0;
        while i < self.parameters.len()
            invariant
                i <= self.parameters@.len(),
                ps == params_view(self.parameters@),
                target@ == code@,
                forall|k: int| 0 <= k < i ==> ps[k].code != code@,
                0 <= first_code(ps, code@) <= ps.len(),
                first_code(ps, code@) < ps.len() ==> ps[first_code(ps, code@)].code == code@,
                forall|k: int| 0 <= k < first_code(ps, code@) ==> ps[k].code != code@,
            decreases self.parameters@.len() - i,
        {
            let key = crate::text::chars_of(self.parameters[i].code.as_str());
            proof {
                assert(ps[i as int] == param_spec(self.parameters@[i as int]));
            }
            if crate::text::chars_equal(&key, &target) {
                return i;
            }
            i = i + 1;
        }
        i
    }

    /// Add a parameter (replacing the one with the same code)
    pub fn add_parameter(&mut self, param: FirmwareParameter)
        ensures
            final(self).spec_parameters() == with_param(old(self).spec_parameters(), param_spec(param)),
            final(self).spec_type() == old(self).spec_type(),
            final(self).spec_version() == old(self).spec_version(),
            final(self).spec_backup() == old(self).spec_backup(),
    {
        let k = self.position_of(param.code.as_str());
        let ghost before = self.parameters@;
        if k < self.parameters.len() {
            self.parameters.set(k, param);
            proof {
                assert(params_view(self.parameters@) =~= params_view(before).update(k as int, param_spec(param)));
            }
        } else {
            self.parameters.push(param);
            proof {
                assert(params_view(self.parameters@) =~= params_view(before).push(param_spec(param)));
            }
        }
    }

    /// All parameters, in order
    pub fn list_parameters(&self) -> (v: Vec<&FirmwareParameter>)
        ensures
            v@.len() == self.spec_parameters().len(),
            forall|i: int| 0 <= i < v@.len() ==> param_spec(*#[trigger] v@[i]) == self.spec_parameters()[i],
    {
        let mut v: Vec<&FirmwareParameter> = Vec::new();
        let mut i: usize = 0;
        while i < self.parameters.len()
            invariant
                i <= self.parameters@.len(),
                v@.len() == i,
                forall|k: int| 0 <= k < i ==> *#[trigger] v@[k] == self.parameters@[k],
            decreases self.parameters@.len() - i,
        {
            v.push(&self.parameters[i]);
            i = i + 1;
        }
        v
    }

    /// The number of parameters
    pub fn parameter_count(&self) -> (n: usize)
        ensures
            n == self.spec_parameters().len(),
    {
        self.parameters.len()
    }

    /// Set the value of the parameter with this code
    pub fn set_parameter_value(&mut self, code: &str, value: &str) -> (r: Result<(), String>)
        ensures
            match set_value_error(old(self).spec_parameters(), code@) {
                Some(msg) => r matches Err(e) && e@ == msg && final(self).spec_parameters()
                    == old(self).spec_parameters(),
                None => r is Ok && final(self).spec_parameters() == old(self).spec_parameters().update(
                    first_code(old(self).spec_parameters(), code@),
                    ParamSpec {
                        value: value@,
                        ..old(self).spec_parameters()[first_code(old(self).spec_parameters(), code@)]
                    },
                ),
            },
            final(self).spec_type() == old(self).spec_type(),
            final(self).spec_version() == old(self).spec_version(),
            final(self).spec_backup() == old(self).spec_backup(),
    {
        let k = self.position_of(code);
        if k >= self.parameters.len() {
            let mut msg = String::new();
            push_str(&mut msg, "Parameter not found: ");
            push_str(&mut msg, code);
            return Err(msg);
        }
        if self.parameters[k].read_only {
            let mut msg = String::new();
            push_str(&mut msg, "Parameter is read-only: ");
            push_str(&mut msg, code);
            return Err(msg);
        }
        let ghost before = self.parameters@;
        self.parameters[k].value = value.to_owned();
        proof {
            assert(params_view(self.parameters@) =~= params_view(before).update(
                k as int,
                ParamSpec { value: value@, ..params_view(before)[k as int] },
            ));
        }
        Ok(())
    }

    /// The parameters whose value differs from their default
    pub fn get_modified_parameters(&self) -> (v: Vec<&FirmwareParameter>)
        ensures
            v@.len() == modified_params(self.spec_parameters()).len(),
            forall|i: int|
                0 <= i < v@.len() ==> param_spec(*#[trigger] v@[i]) == modified_params(self.spec_parameters())[i],
    {
        let ghost ps = self.spec_parameters();
        let mut v: Vec<&FirmwareParameter> = Vec::new();
        let mut i: usize = 0;
        while i < self.parameters.len()
            invariant
                i <= self.parameters@.len(),
                ps == params_view(self.parameters@),
                v@.len() == modified_params(ps.take(i as int)).len(),
                forall|k: int|
                    0 <= k < v@.len() ==> param_spec(*#[trigger] v@[k]) == modified_params(ps.take(i as int))[k],
            decreases self.parameters@.len() - i,
        {
            proof {
                assert(ps.take(i + 1).drop_last() == ps.take(i as int));
                assert(ps.take(i + 1).last() == param_spec(self.parameters@[i as int]));
            }
            if self.parameters[i].is_modified() {
                v.push(&self.parameters[i]);
            }
            i = i + 1;
        }
        proof {
            assert(ps.take(ps.len() as int) == ps);
        }
        v
    }

    /// Save the current parameters
    pub fn create_backup(&mut self)
        ensures
            final(self).spec_backup() == Some(old(self).spec_parameters()),
            final(self).spec_parameters() == old(self).spec_parameters(),
            final(self).spec_type() == old(self).spec_type(),
            final(self).spec_version() == old(self).spec_version(),
    {
        self.backup = Some(copy_params(&self.parameters));
    }

    /// Bring back the saved parameters
    pub fn restore_backup(&mut self) -> (r: Result<(), String>)
        ensures
            match old(self).spec_backup() {
                Some(b) => r is Ok && final(self).spec_parameters() == b,
                None => r matches Err(e) && e@ == "No backup available"@ && final(self).spec_parameters()
                    == old(self).spec_parameters(),
            },
            final(self).spec_backup() == old(self).spec_backup(),
            final(self).spec_type() == old(self).spec_type(),
            final(self).spec_version() == old(self).spec_version(),
    {
        match &self.backup {
            Some(b) => {
                self.parameters = copy_params(b);
                Ok(())
            },
            None => Err("No backup available".to_owned()),
        }
    }

    /// Set every parameter back to its default value
    pub fn reset_all_to_defaults(&mut self)
        ensures
            final(self).spec_parameters() == reset_params(old(self).spec_parameters()),
            final(self).spec_backup() == old(self).spec_backup(),
            final(self).spec_type() == old(self).spec_type(),
            final(self).spec_version() == old(self).spec_version(),
    {
        let mut i: usize = 0;
        while i < self.parameters.len()
            invariant
                i <= self.parameters@.len(),
                self.parameters@.len() == old(self).parameters@.len(),
                forall|k: int|
                    0 <= k < i ==> #[trigger] param_spec(self.parameters@[k]) == (ParamSpec {
                        value: param_spec(old(self).parameters@[k]).default_value,
                        ..param_spec(old(self).parameters@[k])
                    }),
                forall|k: int| i <= k < self.parameters@.len() ==> #[trigger] self.parameters@[k] == old(self).parameters@[k],
                self.backup == old(self).backup,
                self.firmware_type == old(self).firmware_type,
                self.firmware_version == old(self).firmware_version,
            decreases self.parameters@.len() - i,
        {
            let d = self.parameters[i].default_value.clone();
            self.parameters[i].value = d;
            i = i + 1;
        }
        proof {
            assert(params_view(self.parameters@) =~= reset_params(params_view(old(self).parameters@)));
        }
    }
}

} // verus!
