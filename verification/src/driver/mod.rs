pub mod pci;
