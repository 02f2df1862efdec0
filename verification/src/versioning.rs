//! Run manifests: what identifies a run, the digests of its parts, and how
//! a recorded audit chain is checked against a recomputed one.

use vstd::prelude::*;
use crate::money::{add_opt, dec, decimal_digits, opt_add, option_money_view, Dec, Money};
use crate::types::SymbolResult;
use vstd::string::StringExecFns;

verus! {

/// The strategy a run used.
#[derive(Debug)]
pub struct StrategyInfo {
    pub name: String,
    pub version: String,
    pub wasm_hash: String,
    pub source_hash: String,
    pub language: String,
    /// Parameter names with their values, in the order given.
    pub parameters: Vec<(String, String)>,
    pub required_indicators: Vec<String>,
}

/// The machine a run was made on.
#[derive(Debug)]
pub struct EnvironmentInfo {
    pub os: String,
    pub architecture: String,
    pub cpu_model: String,
    pub cpu_cores: u32,
    pub memory_gb: u32,
    pub rust_toolchain: String,
    pub go_version: String,
    pub clickhouse_version: String,
}

/// Digests of the parts of a manifest.
#[derive(Debug)]
pub struct AuditChain {
    pub manifest_hash: String,
    pub data_hash: String,
    pub engine_hash: String,
    pub strategy_hash: String,
    pub config_hash: String,
    pub result_hash: String,
    pub verification_hash: String,
}

/// An audit chain as a value.
pub struct AuditChainView {
    pub manifest_hash: Seq<char>,
    pub data_hash: Seq<char>,
    pub engine_hash: Seq<char>,
    pub strategy_hash: Seq<char>,
    pub config_hash: Seq<char>,
    pub result_hash: Seq<char>,
    pub verification_hash: Seq<char>,
}

impl View for AuditChain {
    type V = AuditChainView;

    open spec fn view(&self) -> AuditChainView {
        AuditChainView {
            manifest_hash: self.manifest_hash@,
            data_hash: self.data_hash@,
            engine_hash: self.engine_hash@,
            strategy_hash: self.strategy_hash@,
            config_hash: self.config_hash@,
            result_hash: self.result_hash@,
            verification_hash: self.verification_hash@,
        }
    }
}

/// The chain with every digest empty.
pub open spec fn empty_chain() -> AuditChainView {
    AuditChainView {
        manifest_hash: Seq::empty(),
        data_hash: Seq::empty(),
        engine_hash: Seq::empty(),
        strategy_hash: Seq::empty(),
        config_hash: Seq::empty(),
        result_hash: Seq::empty(),
        verification_hash: Seq::empty(),
    }
}

impl Default for AuditChain {
    fn default() -> (r: Self)
        ensures
            r@ == empty_chain(),
    {
        AuditChain {
            manifest_hash: String::new(),
            data_hash: String::new(),
            engine_hash: String::new(),
            strategy_hash: String::new(),
            config_hash: String::new(),
            result_hash: String::new(),
            verification_hash: String::new(),
        }
    }
}

impl Clone for AuditChain {
    fn clone(&self) -> (r: Self)
        ensures
            r == *self,
    {
        AuditChain {
            manifest_hash: self.manifest_hash.clone(),
            data_hash: self.data_hash.clone(),
            engine_hash: self.engine_hash.clone(),
            strategy_hash: self.strategy_hash.clone(),
            config_hash: self.config_hash.clone(),
            result_hash: self.result_hash.clone(),
            verification_hash: self.verification_hash.clone(),
        }
    }
}

/// Outcome of checking a manifest.
#[derive(Debug)]
pub struct VerificationResult {
    pub valid: bool,
    pub issues: Vec<String>,
    pub manifest_id: String,
}

/// Outcome of checking a run against its budget.
#[derive(Debug)]
pub struct BudgetCheckResult {
    pub passed: bool,
    pub violations: Vec<String>,
}

/// The SHA-256 digest of the UTF-8 bytes of a text, in lowercase hex.
pub uninterp spec fn sha256_hex(text: Seq<char>) -> Seq<char>;

/// `sha2::Sha256` over the bytes of `data`, printed with `{:x}`; the digest
/// is named.
#[verifier::external_body]
fn sha256_hex_string(data: &str) -> (r: String)
    ensures
        r@ == sha256_hex(data@),
{
    let mut hasher = <sha2::Sha256 as sha2::Digest>::new();
    sha2::Digest::update(&mut hasher, data.as_bytes());
    format!("{:x}", sha2::Digest::finalize(hasher))
}

/// The texts of a sequence of strings.
pub open spec fn texts(v: Seq<String>) -> Seq<Seq<char>> {
    v.map_values(|s: String| s@)
}

/// What is wrong between a recomputed chain and the recorded one: one
/// message for each of the six part digests that differ, in the order
/// manifest, data, engine, strategy, configuration, result.
pub open spec fn audit_issues_spec(calculated: AuditChainView, recorded: AuditChainView) -> Seq<
    Seq<char>,
> {
    (if calculated.manifest_hash != recorded.manifest_hash {
        seq!["Manifest hash mismatch"@]
    } else {
        Seq::empty()
    }) + (if calculated.data_hash != recorded.data_hash {
        seq!["Data hash mismatch"@]
    } else {
        Seq::empty()
    }) + (if calculated.engine_hash != recorded.engine_hash {
        seq!["Engine hash mismatch"@]
    } else {
        Seq::empty()
    }) + (if calculated.strategy_hash != recorded.strategy_hash {
        seq!["Strategy hash mismatch"@]
    } else {
        Seq::empty()
    }) + (if calculated.config_hash != recorded.config_hash {
        seq!["Configuration hash mismatch"@]
    } else {
        Seq::empty()
    }) + (if calculated.result_hash != recorded.result_hash {
        seq!["Result hash mismatch"@]
    } else {
        Seq::empty()
    })
}

fn note_mismatch(issues: &mut Vec<String>, calculated: &String, recorded: &String, message: &str)
    ensures
        texts(final(issues)@) == texts(old(issues)@) + (if calculated@ != recorded@ {
            seq![message@]
        } else {
            Seq::empty()
        }),
{
    let ghost before = texts(issues@);
    if *calculated != *recorded {
        issues.push(String::from_str(message));
        assert(texts(issues@) =~= before + seq![message@]);
    } else {
        assert(texts(issues@) =~= before + Seq::<Seq<char>>::empty());
    }
}

/// What is wrong between a recomputed chain and the recorded one.
pub fn audit_issues(calculated: &AuditChain, recorded: &AuditChain) -> (r: Vec<String>)
    ensures
        texts(r@) == audit_issues_spec(calculated@, recorded@),
{
    let mut issues: Vec<String> = Vec::new();
    assert(texts(issues@) =~= Seq::<Seq<char>>::empty());
    note_mismatch(
        &mut issues,
        &calculated.manifest_hash,
        &recorded.manifest_hash,
        "Manifest hash mismatch",
    );
    assert(texts(issues@) =~= (if calculated@.manifest_hash != recorded@.manifest_hash {
        seq!["Manifest hash mismatch"@]
    } else {
        Seq::empty()
    }));
    note_mismatch(&mut issues, &calculated.data_hash, &recorded.data_hash, "Data hash mismatch");
    note_mismatch(
        &mut issues,
        &calculated.engine_hash,
        &recorded.engine_hash,
        "Engine hash mismatch",
    );
    note_mismatch(
        &mut issues,
        &calculated.strategy_hash,
        &recorded.strategy_hash,
        "Strategy hash mismatch",
    );
    note_mismatch(
        &mut issues,
        &calculated.config_hash,
        &recorded.config_hash,
        "Configuration hash mismatch",
    );
    note_mismatch(
        &mut issues,
        &calculated.result_hash,
        &recorded.result_hash,
        "Result hash mismatch",
    );
    issues
}

/// The message for a run that took longer than its budget; nothing for
/// one that did not.
pub open spec fn time_violation_spec(execution_time_ms: u64, max_execution_time_ms: u64) -> Option<
    Seq<char>,
> {
    if execution_time_ms > max_execution_time_ms {
        Some(
            "Execution time exceeded budget: "@ + decimal_digits(execution_time_ms as nat)
                + "ms > "@ + decimal_digits(max_execution_time_ms as nat) + "ms"@,
        )
    } else {
        None
    }
}

/// Names the place where manifests are kept.
#[derive(Debug)]
pub struct ManifestManager {
    storage_path: String,
}

impl ManifestManager {
    pub closed spec fn storage_path(&self) -> Seq<char> {
        self.storage_path@
    }

    /// A manager over the directory `storage_path`.
    pub fn new(storage_path: String) -> (r: Self)
        ensures
            r.storage_path() == storage_path@,
    {
        ManifestManager { storage_path }
    }

    /// The file of the manifest of run `run_id`:
    /// `<storage>/manifests/<run_id>.json`.
    pub fn get_manifest_path(&self, run_id: &str) -> (r: String)
        ensures
            r@ == self.storage_path() + "/manifests/"@ + run_id@ + ".json"@,
    {
        let mut path = self.storage_path.clone();
        path.append("/manifests/");
        path.append(run_id);
        path.append(".json");
        path
    }

    /// The lowercase hex SHA-256 digest of `data`.
    pub fn calculate_hash(&self, data: &str) -> (r: String)
        ensures
            r@ == sha256_hex(data@),
    {
        sha256_hex_string(data)
    }

    /// The chain of the six part digests over the JSON texts of the parts,
    /// with the verification digest of `recorded` carried over.
    pub fn calculate_part_hashes(
        &self,
        manifest_json: &str,
        data_json: &str,
        engine_json: &str,
        strategy_json: &str,
        config_json: &str,
        result_json: &str,
        recorded: &AuditChain,
    ) -> (r: AuditChain)
        ensures
            r@ == (AuditChainView {
                manifest_hash: sha256_hex(manifest_json@),
                data_hash: sha256_hex(data_json@),
                engine_hash: sha256_hex(engine_json@),
                strategy_hash: sha256_hex(strategy_json@),
                config_hash: sha256_hex(config_json@),
                result_hash: sha256_hex(result_json@),
                verification_hash: recorded@.verification_hash,
            }),
    {
        AuditChain {
            manifest_hash: sha256_hex_string(manifest_json),
            data_hash: sha256_hex_string(data_json),
            engine_hash: sha256_hex_string(engine_json),
            strategy_hash: sha256_hex_string(strategy_json),
            config_hash: sha256_hex_string(config_json),
            result_hash: sha256_hex_string(result_json),
            verification_hash: recorded.verification_hash.clone(),
        }
    }

    /// The chain sealed: its verification digest becomes the digest of
    /// `chain_json`, the JSON text of the chain before sealing.
    pub fn seal_chain(&self, chain: AuditChain, chain_json: &str) -> (r: AuditChain)
        ensures
            r@ == (AuditChainView { verification_hash: sha256_hex(chain_json@), ..chain@ }),
    {
        AuditChain {
            manifest_hash: chain.manifest_hash,
            data_hash: chain.data_hash,
            engine_hash: chain.engine_hash,
            strategy_hash: chain.strategy_hash,
            config_hash: chain.config_hash,
            result_hash: chain.result_hash,
            verification_hash: sha256_hex_string(chain_json),
        }
    }

    /// The verdict on a manifest: valid exactly when nothing is wrong.
    pub fn verification_result(&self, issues: Vec<String>, manifest_id: String) -> (r:
        VerificationResult)
        ensures
            r.valid == (issues@.len() == 0),
            r.issues == issues,
            r.manifest_id == manifest_id,
    {
        VerificationResult { valid: issues.len() == 0, issues, manifest_id }
    }

    /// The message for a run that took longer than its budget.
    pub fn check_execution_time(&self, execution_time_ms: u64, max_execution_time_ms: u64) -> (r:
        Option<String>)
        ensures
            crate::trade_table::option_string_view(r) == time_violation_spec(
                execution_time_ms,
                max_execution_time_ms,
            ),
    {
        if execution_time_ms > max_execution_time_ms {
            let mut message = String::from_str("Execution time exceeded budget: ");
            message.append(crate::export::number_text(execution_time_ms).as_str());
            message.append("ms > ");
            message.append(crate::export::number_text(max_execution_time_ms).as_str());
            message.append("ms");
            Some(message)
        } else {
            None
        }
    }

    /// The verdict on a budget: passed exactly when nothing was violated.
    pub fn budget_result(&self, violations: Vec<String>) -> (r: BudgetCheckResult)
        ensures
            r.passed == (violations@.len() == 0),
            r.violations == violations,
    {
        BudgetCheckResult { passed: violations.len() == 0, violations }
    }

    /// Whether the manifest's environment can be reproduced here: every
    /// environment is accepted.
    pub fn check_environment_compatibility(&self, environment: &EnvironmentInfo) -> (r: Result<
        bool,
        crate::types::EngineError,
    >)
        ensures
            r == Ok::<bool, crate::types::EngineError>(true),
    {
        Ok(true)
    }

    /// Whether the manifest's strategy is at hand: every strategy is
    /// accepted.
    pub fn check_strategy_availability(&self, strategy: &StrategyInfo) -> (r: Result<
        bool,
        crate::types::EngineError,
    >)
        ensures
            r == Ok::<bool, crate::types::EngineError>(true),
    {
        Ok(true)
    }

    /// The steps to reproduce a run; `symbols` is the list of symbols as it
    /// is to be shown.
    pub fn generate_reproduction_instructions(
        &self,
        engine_version: &str,
        strategy: &StrategyInfo,
        snapshot_id: &str,
        symbols: &str,
        timeframe: &str,
        start_time: u64,
        end_time: u64,
        environment: &EnvironmentInfo,
    ) -> (r: String)
        ensures
            r@ == "To reproduce this run:\n1. Use engine version: "@ + engine_version@
                + "\n2. Use strategy: "@ + strategy.name@ + " (hash: "@ + strategy.wasm_hash@
                + ")\n3. Use data snapshot: "@ + snapshot_id@ + "\n4. Set configuration: symbols="@
                + symbols@ + ", timeframe="@ + timeframe@ + ", start="@ + decimal_digits(start_time as nat) + ", end="@
                + decimal_digits(end_time as nat) + "\n5. Ensure environment: "@ + environment.os@
                + " on "@ + environment.architecture@ + ", "@ + decimal_digits(
                environment.cpu_cores as nat,
            ) + " cores, "@ + decimal_digits(environment.memory_gb as nat) + "GB RAM"@,
    {
        let mut text = String::from_str("To reproduce this run:\n1. Use engine version: ");
        text.append(engine_version);
        text.append("\n2. Use strategy: ");
        text.append(strategy.name.as_str());
        text.append(" (hash: ");
        text.append(strategy.wasm_hash.as_str());
        text.append(")\n3. Use data snapshot: ");
        text.append(snapshot_id);
        text.append("\n4. Set configuration: symbols=");
        text.append(symbols);
        text.append(", timeframe=");
        text.append(timeframe);
        text.append(", start=");
        text.append(crate::export::number_text(start_time).as_str());
        text.append(", end=");
        text.append(crate::export::number_text(end_time).as_str());
        text.append("\n5. Ensure environment: ");
        text.append(environment.os.as_str());
        text.append(" on ");
        text.append(environment.architecture.as_str());
        text.append(", ");
        text.append(crate::export::number_text(environment.cpu_cores as u64).as_str());
        text.append(" cores, ");
        text.append(crate::export::number_text(environment.memory_gb as u64).as_str());
        text.append("GB RAM");
        text
    }
}


/// The executions of all symbols counted together.
pub open spec fn executions_total(results: Seq<SymbolResult>) -> int
    decreases results.len(),
{
    if results.len() == 0 {
        0
    } else {
        executions_total(results.drop_last()) + results.last().trades@.len()
    }
}

/// The last equity of every symbol that has an equity curve, added up from
/// zero in the order of the symbols.
pub open spec fn final_equity_total(results: Seq<SymbolResult>) -> Option<Dec>
    decreases results.len(),
{
    if results.len() == 0 {
        Some(dec(0, 0))
    } else {
        let before = final_equity_total(results.drop_last());
        let curve = results.last().equity_curve@;
        if curve.len() == 0 {
            before
        } else {
            add_opt(before, Some(curve.last().equity@))
        }
    }
}

/// The deepest drawdown among the symbols, of equal ones the last; nothing
/// for no symbols.
pub open spec fn deepest_drawdown(results: Seq<SymbolResult>) -> Option<Dec>
    decreases results.len(),
{
    if results.len() == 0 {
        None
    } else {
        match deepest_drawdown(results.drop_last()) {
            None => Some(results.last().drawdown@),
            Some(before) => if results.last().drawdown@.lt(before) {
                Some(before)
            } else {
                Some(results.last().drawdown@)
            },
        }
    }
}

/// The totals of a run over its symbols: the number of executions, the sum
/// of the final equities, and the deepest drawdown, zero for no symbols.
/// Nothing when the count exceeds `u32::MAX` or the sum overflows.
pub open spec fn run_totals_spec(results: Seq<SymbolResult>) -> Option<(u32, Dec, Dec)> {
    if executions_total(results) > u32::MAX || final_equity_total(results) is None {
        None
    } else {
        Some(
            (
                executions_total(results) as u32,
                final_equity_total(results)->0,
                match deepest_drawdown(results) {
                    Some(d) => d,
                    None => dec(0, 0),
                },
            ),
        )
    }
}

pub open spec fn run_totals_view(r: Option<(u32, Money, Money)>) -> Option<(u32, Dec, Dec)> {
    match r {
        Some(t) => Some((t.0, t.1@, t.2@)),
        None => None,
    }
}

/// More symbols never lower the count of executions.
proof fn lemma_executions_grow(results: Seq<SymbolResult>, n: int)
    requires
        0 <= n <= results.len(),
    ensures
        0 <= executions_total(results.take(n)) <= executions_total(results),
    decreases results.len(),
{
    if n == results.len() {
        assert(results.take(n) =~= results);
        if n > 0 {
            lemma_executions_grow(results.drop_last(), n - 1);
        }
    } else {
        assert(results.drop_last().take(n) =~= results.take(n));
        lemma_executions_grow(results.drop_last(), n);
    }
}

/// The totals of a run over its symbols.
pub fn run_totals(results: &[SymbolResult]) -> (r: Option<(u32, Money, Money)>)
    ensures
        run_totals_view(r) == run_totals_spec(results@),
{
    let mut count: u32 = 0;
    let mut equity: Option<Money> = Some(Money::zero());
    let mut deepest: Option<Money> = None;
    let mut i: usize = 0;
    proof {
        assert(results@.take(0) =~= Seq::<SymbolResult>::empty());
    }
    while i < results.len()
        invariant
            i <= results.len(),
            count as int == executions_total(results@.take(i as int)),
            option_money_view(equity) == final_equity_total(results@.take(i as int)),
            option_money_view(deepest) == deepest_drawdown(results@.take(i as int)),
        decreases results.len() - i,
    {
        proof {
            assert(results@.take(i as int + 1).drop_last() =~= results@.take(i as int));
            assert(results@.take(i as int + 1).last() == results@[i as int]);
        }
        let item = &results[i];
        let executed = item.trades.len();
        if executed > (u32::MAX - count) as usize {
            proof {
                lemma_executions_grow(results@, i as int + 1);
            }
            return None;
        }
        count = count + executed as u32;
        let points = item.equity_curve.len();
        if points > 0 {
            equity = opt_add(equity, Some(item.equity_curve[points - 1].equity));
        }
        deepest = match deepest {
            None => Some(item.drawdown),
            Some(before) => if item.drawdown.lt(&before) {
                Some(before)
            } else {
                Some(item.drawdown)
            },
        };
        i = i + 1;
    }
    proof {
        assert(results@.take(i as int) =~= results@);
    }
    match equity {
        Some(total) => Some(
            (
                count,
                total,
                match deepest {
                    Some(d) => d,
                    None => Money::zero(),
                },
            ),
        ),
        None => None,
    }
}

} // verus!
