//! What every open file carries: its page geometry and the scopes of its
//! pages.

use std::collections::HashMap;
use vstd::prelude::*;

use crate::crypto::keys::KeyScope;
use crate::crypto::page::{decrypt_page, decrypt_result, encrypt_page, encrypt_result, in_place};
use crate::error::EvfsError;
use crate::keyring::{dek_for_step, scope_of_page, Keyring};
use crate::kms::KmsProvider;

verus! {

broadcast use vstd::std_specs::hash::group_hash_axioms;

/// The context of one open file. The keyring is shared by all files of a
/// database and is handed to each call.
pub struct FileContext {
    pub page_size: u32,
    pub reserve_size: usize,
    /// True for the main database file only: journals, write-ahead logs and
    /// temporary files pass through untouched.
    pub encrypt_enabled: bool,
    /// From the root page of a table to the table's scope. `None` means that
    /// every page is in the scope of the database.
    pub page_scope_map: Option<HashMap<u32, KeyScope>>,
}

/// The map that `build_page_scope_map` makes of a list of tables and root
/// pages: each root page leads to its table; of two tables with one root page
/// the later wins.
pub open spec fn scope_map_of(root_pages: Seq<(String, u32)>) -> Map<u32, KeyScope>
    decreases root_pages.len(),
{
    if root_pages.len() == 0 {
        Map::empty()
    } else {
        scope_map_of(root_pages.drop_last()).insert(
            root_pages.last().1,
            KeyScope::Table(root_pages.last().0),
        )
    }
}

impl FileContext {
    /// The page-to-scope map, as mathematics.
    pub open spec fn scopes(&self) -> Option<Map<u32, KeyScope>> {
        match self.page_scope_map {
            Some(m) => Some(m@),
            None => None,
        }
    }

    /// The keyring name of the scope of page `page_no`.
    pub open spec fn key_of_page(&self, page_no: u32) -> Seq<char> {
        scope_of_page(page_no, self.scopes()).key()
    }

    /// Seals `page` under the data key of its scope.
    ///
    /// The key is resolved as `Keyring::dek_for` does; if that fails, its error
    /// is returned and the page is untouched. With the key in hand the outcome
    /// is that of `crypto::page::encrypt_page`.
    pub fn encrypt_page<P: KmsProvider>(
        &self,
        keyring: &mut Keyring<P>,
        page: &mut Vec<u8>,
        page_no: u32,
    ) -> (r: Result<(), EvfsError>)
        ensures
            final(keyring).kms() == old(keyring).kms(),
            final(page)@.len() == old(page)@.len(),
            exists|key: Result<Seq<u8>, EvfsError>|
                {
                    &&& #[trigger] dek_for_step(
                        old(keyring).state(),
                        self.key_of_page(page_no),
                        key,
                        final(keyring).state(),
                    )
                    &&& match key {
                        Ok(k) => in_place(
                            encrypt_result(old(page)@, page_no, k, self.reserve_size as int),
                            old(page)@,
                            r,
                            final(page)@,
                        ),
                        Err(e) => r == Err::<(), EvfsError>(e) && final(page)@ == old(page)@,
                    }
                },
    {
        let ghost pre = keyring.state();
        match keyring.dek_for_page(page_no, self.page_scope_map.as_ref()) {
            Ok(dek) => {
                let r = encrypt_page(page, page_no, &dek, self.reserve_size);
                assert(dek_for_step(
                    pre,
                    self.key_of_page(page_no),
                    Ok::<Seq<u8>, EvfsError>(dek@),
                    keyring.state(),
                ));
                r
            },
            Err(e) => {
                assert(dek_for_step(
                    pre,
                    self.key_of_page(page_no),
                    Err::<Seq<u8>, EvfsError>(e),
                    keyring.state(),
                ));
                Err(e)
            },
        }
    }

    /// Opens `page` with the data key of its scope.
    ///
    /// The key is resolved as `Keyring::dek_for` does; if that fails, its error
    /// is returned and the page is untouched. With the key in hand the outcome
    /// is that of `crypto::page::decrypt_page`.
    pub fn decrypt_page<P: KmsProvider>(
        &self,
        keyring: &mut Keyring<P>,
        page: &mut Vec<u8>,
        page_no: u32,
    ) -> (r: Result<(), EvfsError>)
        ensures
            final(keyring).kms() == old(keyring).kms(),
            final(page)@.len() == old(page)@.len(),
            exists|key: Result<Seq<u8>, EvfsError>|
                {
                    &&& #[trigger] dek_for_step(
                        old(keyring).state(),
                        self.key_of_page(page_no),
                        key,
                        final(keyring).state(),
                    )
                    &&& match key {
                        Ok(k) => in_place(
                            decrypt_result(old(page)@, page_no, k, self.reserve_size as int),
                            old(page)@,
                            r,
                            final(page)@,
                        ),
                        Err(e) => r == Err::<(), EvfsError>(e) && final(page)@ == old(page)@,
                    }
                },
    {
        let ghost pre = keyring.state();
        match keyring.dek_for_page(page_no, self.page_scope_map.as_ref()) {
            Ok(dek) => {
                let r = decrypt_page(page, page_no, &dek, self.reserve_size);
                assert(dek_for_step(
                    pre,
                    self.key_of_page(page_no),
                    Ok::<Seq<u8>, EvfsError>(dek@),
                    keyring.state(),
                ));
                r
            },
            Err(e) => {
                assert(dek_for_step(
                    pre,
                    self.key_of_page(page_no),
                    Err::<Seq<u8>, EvfsError>(e),
                    keyring.state(),
                ));
                Err(e)
            },
        }
    }

    /// Builds the page-to-scope map from the tables of the schema and their
    /// root pages.
    pub fn build_page_scope_map(&mut self, root_pages: &Vec<(String, u32)>)
        ensures
            final(self).scopes() == Some(scope_map_of(root_pages@)),
            final(self).page_size == old(self).page_size,
            final(self).reserve_size == old(self).reserve_size,
            final(self).encrypt_enabled == old(self).encrypt_enabled,
    {
        let mut map: HashMap<u32, KeyScope> = HashMap::new();
        let mut i: usize = 0;
        while i < root_pages.len()
            invariant
                i <= root_pages@.len(),
                map@ == scope_map_of(root_pages@.take(i as int)),
            decreases root_pages@.len() - i,
        {
            let name = root_pages[i].0.clone();
            map.insert(root_pages[i].1, KeyScope::Table(name));
            proof {
                assert(root_pages@.take(i as int + 1).drop_last() =~= root_pages@.take(i as int));
            }
            i += 1;
        }
        assert(root_pages@.take(root_pages@.len() as int) =~= root_pages@);
        self.page_scope_map = Some(map);
    }
}

} // verus!
