use vstd::prelude::*;

verus! {

#[derive(Clone, Copy, Debug, PartialEq, Eq, Structural)]
pub enum ChainType {
    Development,
    Local,
    Live,
}

/// The token properties a chain advertises to clients.
pub struct ChainProperties {
    pub token_decimals: u32,
    pub token_symbol: String,
}

/// What a chain specification names: the chain, its kind, the genesis preset
/// it starts from and its properties.
pub struct ChainSpec {
    pub name: String,
    pub id: String,
    pub chain_type: ChainType,
    pub genesis_preset: String,
    pub properties: ChainProperties,
}

fn props() -> (r: ChainProperties)
    ensures
        r.token_decimals == 0,
        r.token_symbol@ == "PEZ"@,
{
    ChainProperties { token_decimals: 0, token_symbol: "PEZ".to_owned() }
}

/// The development chain: it starts from the "development" genesis preset.
pub fn development_chain_spec() -> (r: Result<ChainSpec, String>)
    ensures
        r matches Ok(spec) && spec.name@ == "Development"@ && spec.id@ == "dev"@
            && spec.chain_type == ChainType::Development && spec.genesis_preset@
            == "development"@ && spec.properties.token_decimals == 0
            && spec.properties.token_symbol@ == "PEZ"@,
{
    Ok(
        ChainSpec {
            name: "Development".to_owned(),
            id: "dev".to_owned(),
            chain_type: ChainType::Development,
            genesis_preset: "development".to_owned(),
            properties: props(),
        },
    )
}

} // verus!
