use vstd::prelude::*;

verus! {

/// How serious a drift finding is.
#[derive(Debug, Clone, Copy, PartialEq, Eq, Structural)]
pub enum Severity {
    Breaking,
    Warning,
    Info,
}

/// Whether a storage key was declared as a struct or as an enum.
#[derive(Debug, Clone, Copy, PartialEq, Eq, Structural)]
pub enum StorageKeyKind {
    Struct,
    Enum,
}

/// One field of a storage key: a struct field, or an enum variant together
/// with the types it carries.
#[derive(Debug, Clone, PartialEq, Eq)]
pub struct FieldInfo {
    pub name: String,
    pub ty: String,
}

/// Mathematical model of a [`FieldInfo`].
pub struct FieldInfoView {
    pub name: Seq<char>,
    pub ty: Seq<char>,
}

impl DeepView for FieldInfo {
    type V = FieldInfoView;

    open spec fn deep_view(&self) -> FieldInfoView {
        FieldInfoView { name: self.name@, ty: self.ty@ }
    }
}

impl View for FieldInfo {
    type V = FieldInfoView;

    open spec fn view(&self) -> FieldInfoView {
        self.deep_view()
    }
}

/// A storage key extracted from a contract's source code: a type carrying
/// the `#[contracttype]` attribute.
#[derive(Debug, Clone, PartialEq, Eq)]
pub struct StorageKey {
    pub name: String,
    pub kind: StorageKeyKind,
    pub fields: Vec<FieldInfo>,
}

/// Mathematical model of a [`StorageKey`].
pub struct StorageKeyView {
    pub name: Seq<char>,
    pub kind: StorageKeyKind,
    pub fields: Seq<FieldInfoView>,
}

impl DeepView for StorageKey {
    type V = StorageKeyView;

    open spec fn deep_view(&self) -> StorageKeyView {
        StorageKeyView { name: self.name@, kind: self.kind, fields: self.fields.deep_view() }
    }
}

impl View for StorageKey {
    type V = StorageKeyView;

    open spec fn view(&self) -> StorageKeyView {
        self.deep_view()
    }
}

/// Authorization calls found in one public function.
#[derive(Debug, Clone, PartialEq, Eq)]
pub struct FunctionAuth {
    pub function_name: String,
    pub has_require_auth: bool,
    pub has_require_auth_for_args: bool,
}

/// Mathematical model of a [`FunctionAuth`].
pub struct FunctionAuthView {
    pub function_name: Seq<char>,
    pub has_require_auth: bool,
    pub has_require_auth_for_args: bool,
}

impl DeepView for FunctionAuth {
    type V = FunctionAuthView;

    open spec fn deep_view(&self) -> FunctionAuthView {
        FunctionAuthView {
            function_name: self.function_name@,
            has_require_auth: self.has_require_auth,
            has_require_auth_for_args: self.has_require_auth_for_args,
        }
    }
}

impl View for FunctionAuth {
    type V = FunctionAuthView;

    open spec fn view(&self) -> FunctionAuthView {
        self.deep_view()
    }
}

/// One parameter (or result) of a function signature read from the
/// contract spec section.
#[derive(Debug, Clone, PartialEq, Eq)]
pub struct ParamInfo {
    pub name: String,
    pub ty: String,
}

/// Mathematical model of a [`ParamInfo`].
pub struct ParamInfoView {
    pub name: Seq<char>,
    pub ty: Seq<char>,
}

impl DeepView for ParamInfo {
    type V = ParamInfoView;

    open spec fn deep_view(&self) -> ParamInfoView {
        ParamInfoView { name: self.name@, ty: self.ty@ }
    }
}

impl View for ParamInfo {
    type V = ParamInfoView;

    open spec fn view(&self) -> ParamInfoView {
        self.deep_view()
    }
}

/// A function signature read from the contract spec section.
#[derive(Debug, Clone, PartialEq, Eq)]
pub struct FunctionSpec {
    pub name: String,
    pub inputs: Vec<ParamInfo>,
    pub outputs: Vec<ParamInfo>,
}

/// Mathematical model of a [`FunctionSpec`].
pub struct FunctionSpecView {
    pub name: Seq<char>,
    pub inputs: Seq<ParamInfoView>,
    pub outputs: Seq<ParamInfoView>,
}

impl DeepView for FunctionSpec {
    type V = FunctionSpecView;

    open spec fn deep_view(&self) -> FunctionSpecView {
        FunctionSpecView {
            name: self.name@,
            inputs: self.inputs.deep_view(),
            outputs: self.outputs.deep_view(),
        }
    }
}

impl View for FunctionSpec {
    type V = FunctionSpecView;

    open spec fn view(&self) -> FunctionSpecView {
        self.deep_view()
    }
}

/// The function signatures of one contract version.
#[derive(Debug, Clone, PartialEq, Eq)]
pub struct ContractSpec {
    pub functions: Vec<FunctionSpec>,
}

impl DeepView for ContractSpec {
    type V = Seq<FunctionSpecView>;

    open spec fn deep_view(&self) -> Seq<FunctionSpecView> {
        self.functions.deep_view()
    }
}

impl View for ContractSpec {
    type V = Seq<FunctionSpecView>;

    open spec fn view(&self) -> Seq<FunctionSpecView> {
        self.deep_view()
    }
}

impl Default for ContractSpec {
    /// The spec of a contract with no known functions.
    fn default() -> (res: ContractSpec)
        ensures
            res@.len() == 0,
    {
        ContractSpec { functions: Vec::new() }
    }
}

/// A single difference found between two contract versions.
#[derive(Debug, Clone, PartialEq, Eq)]
pub struct DriftFinding {
    pub severity: Severity,
    pub category: String,
    pub message: String,
    pub old_value: Option<String>,
    pub new_value: Option<String>,
}

/// Mathematical model of a [`DriftFinding`].
pub struct DriftFindingView {
    pub severity: Severity,
    pub category: Seq<char>,
    pub message: Seq<char>,
    pub old_value: Option<Seq<char>>,
    pub new_value: Option<Seq<char>>,
}

impl DeepView for DriftFinding {
    type V = DriftFindingView;

    open spec fn deep_view(&self) -> DriftFindingView {
        DriftFindingView {
            severity: self.severity,
            category: self.category@,
            message: self.message@,
            old_value: self.old_value.deep_view(),
            new_value: self.new_value.deep_view(),
        }
    }
}

impl View for DriftFinding {
    type V = DriftFindingView;

    open spec fn view(&self) -> DriftFindingView {
        self.deep_view()
    }
}

/// The full comparison of two contract versions.
#[derive(Debug, Clone, PartialEq, Eq)]
pub struct DriftReport {
    pub old_path: String,
    pub new_path: String,
    pub findings: Vec<DriftFinding>,
    pub has_breaking_changes: bool,
}

/// Mathematical model of a [`DriftReport`].
pub struct DriftReportView {
    pub old_path: Seq<char>,
    pub new_path: Seq<char>,
    pub findings: Seq<DriftFindingView>,
    pub has_breaking_changes: bool,
}

impl DeepView for DriftReport {
    type V = DriftReportView;

    open spec fn deep_view(&self) -> DriftReportView {
        DriftReportView {
            old_path: self.old_path@,
            new_path: self.new_path@,
            findings: self.findings.deep_view(),
            has_breaking_changes: self.has_breaking_changes,
        }
    }
}

impl View for DriftReport {
    type V = DriftReportView;

    open spec fn view(&self) -> DriftReportView {
        self.deep_view()
    }
}

/// What the source analysis of one contract version finds: its storage keys
/// and the authorization calls of its public functions.
#[derive(Debug, Clone)]
pub struct ContractAst {
    pub storage_keys: Vec<StorageKey>,
    pub functions: Vec<FunctionAuth>,
}

} // verus!
