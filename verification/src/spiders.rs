pub mod myssl_com;
pub mod nexcess_net;
