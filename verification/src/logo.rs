//! The pictures a node shows at start-up and at a network upgrade.

use crate::network::{NetworkChain, NetworkVersion, V23};
use vstd::prelude::*;

verus! {

/// Three trees arranged in an order that resemble the forest logo.
pub const THREE_TREES: &'static str = "
                           ███████
                     ███████████████████
                     ███████████████████
                     ███████████████████
                       ▄█████████████▄
                    ▄███████████████████▄
                 ███████████████████████████
                 ██████ █████████████ ██████
                     ▄▄███████████████▄▄
               ███████████████████████████████
              ████████████ ███████ ████████████
             ██████████▀   ███████   ▀██████████
                           ███████
             ███████       ███████       ███████
       ███████████████████ ███████ ███████████████████
       ███████████████████         ███████████████████
       ███████████████████         ███████████████████
         ▄█████████████▄             ▄█████████████▄
      ▄███████████████████▄       ▄███████████████████▄
   ███████████████████████████ ███████████████████████████
   ██████ █████████████ ██████ ██████ █████████████ ██████
       ▄▄███████████████▄▄         ▄▄███████████████▄▄
  █████████████████████████████████████████████████████████
 ███████████ ███████ ███████████████████ ███████ ███████████
█████████▀   ███████   ▀█████████████▀   ███████   ▀█████████
             ███████                     ███████
             ███████                     ███████
             ███████                     ███████
";

/// A Belgian waffle, built out of smaller waffles.
pub const WAFFLE: &'static str = "
                                                                                
                                       ##                                       
                                    #### ###                                    
                                    ##    ##                                    
                      ######        ##    ##        ######                      
                     ##    ##      ###    ###      ##    ##                     
                    ###    ###########    ###########    ###                    
                   ####    ##       ##    ##       ##    ####                   
               ########    ###########    ###########    ########               
             #########      #########      #########      #########             
            ##                                                    ##            
            ###                                                  ###            
              #########    ###########    ###########    #########              
                 ##  ##    ##       ##    ##       ##    ##  ##                 
                 ##  ##    ##       ##    ##       ##    ##  ##                 
                 ##  ##    ##       ##    ##       ##    ##  ###                
              ####   ##    ##       ##    ##       ##    ##   ####              
         ##############    ###########    ###########    ##############         
        ##                                                            ##        
        ###                                                           ##        
         ##############    ###########    ###########    ##############         
               ###   ##    ##       ##    ##       ##    ##   ###               
                 ##  ##    ##       ##    ##       ##    ##  ##                 
                 ##  ##    ##       ##    ##       ##    ##  ##                 
                ###  ##    ##       ##    ##       ##    ##   ##                
             ##########    ###########    ###########    ##########             
            ##                                                    ##            
            ##                                                    ##            
             ##########    ###########    ###########    ##########             
                 ######    ##       ##    ##       ##    ######                 
                    ###    ## ####  ##    ##  #### ##    ###                    
                     ##    ####  #####    #####  ####    ##                     
                     ##    ##       ##    ###      ##    ##                     
                      ######        ##    ##        ######                      
                                    ##    ##                                    
                                     ######                       

        ";

/// A butterfly.
pub const BUTTERFLY: &'static str = "
               ,,_
           zd$$??=
         z$$P? F:`c,                _
        d$$, `c'cc$$i           ,cd$?R
       $$$$ cud$,?$$$i       ,=P\"2?z \"
        $\" \" ?$$$,?$$$.    ,-''`>, bzP
         'cLdb,?$$,?$$$   ,h' \"I$'J$P
      ... `?$$$,\"$$,`$$h  $$PxrF'd$\"
    d$PP\"\"?-,\"?$$,?$h`$$,,$$'$F44\"
    ?,,_`=4c,?=,\"?hu?$`?L4$'? '
       `\"\"?==\"\"=-\"\" `\"\"-`'_,,,,
               .ccu?m?e?JC,-,\"=?
                         \"\"\"=='?\"
    ";

/// The picture of a chain, if it has one.
pub open spec fn chain_logo(chain: NetworkChain) -> Option<Seq<char>> {
    match chain {
        NetworkChain::Butterflynet => Some(BUTTERFLY@),
        _ => None,
    }
}

/// The picture of the upgrade to a network version.
pub open spec fn upgrade_logo(network_version: NetworkVersion) -> Seq<char> {
    if network_version.0 == V23 {
        WAFFLE@
    } else {
        THREE_TREES@
    }
}

/// The picture to show for a chain: none on a terminal that is not
/// interactive, and none for a chain without one.
pub fn display_chain_logo(chain: &NetworkChain, interactive: bool) -> (logo: Option<&'static str>)
    ensures
        match logo {
            Some(art) => interactive && chain_logo(*chain) == Some(art@),
            None => !interactive || chain_logo(*chain) is None,
        },
{
    if !interactive {
        return None;
    }
    match chain {
        NetworkChain::Butterflynet => Some(reveal_butterfly_logo()),
        NetworkChain::Mainnet | NetworkChain::Calibnet | NetworkChain::Devnet(_) => None,
    }
}

/// The picture to show at the upgrade to a network version: none on a terminal
/// that is not interactive.
pub fn reveal_upgrade_logo(network_version: NetworkVersion, interactive: bool) -> (logo: Option<
    &'static str,
>)
    ensures
        match logo {
            Some(art) => interactive && art@ == upgrade_logo(network_version),
            None => !interactive,
        },
{
    if !interactive {
        return None;
    }
    if network_version.0 == V23 {
        Some(reveal_waffle_upgrade())
    } else {
        Some(reveal_three_trees())
    }
}

/// Reveals three trees arranged in an order that resemble the forest logo.
/// To be used at anyone's convenience.
pub fn reveal_three_trees() -> (art: &'static str)
    ensures
        art@ == THREE_TREES@,
{
    THREE_TREES
}

/// Reveals a beautiful Belgian waffle. A keen eye may notice that the waffle is built out of
/// smaller waffles.
pub fn reveal_waffle_upgrade() -> (art: &'static str)
    ensures
        art@ == WAFFLE@,
{
    WAFFLE
}

/// Reveals a Butterfly logo. A beautiful butterfly that will not enjoy its life for long.
pub fn reveal_butterfly_logo() -> (art: &'static str)
    ensures
        art@ == BUTTERFLY@,
{
    BUTTERFLY
}

} // verus!
