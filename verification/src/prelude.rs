pub use crate::error::Error;
pub use crate::helper::refcellify;
pub use crate::rand::{
    choose_rand, choose_rand_alias, choose_rand_mut, ChooseRng, DefaultRng, FixedRng, Probable,
    Weighted, WEIGHT_ONE,
};
