use oxcart::arraylist::ArrayList;
use oxcart::list::{List, ListError};

fn four() -> Result<ArrayList<u64>, ListError> {
    let mut actual_list: ArrayList<u64> = ArrayList::new();
    actual_list.append(1)?;
    actual_list.append(2)?;
    actual_list.append(3)?;
    actual_list.append(4)?;
    Ok(actual_list)
}

fn four_removable() -> Result<ArrayList<u64>, ListError> {
    let mut actual_list: ArrayList<u64> = ArrayList::new();
    actual_list.append(33)?;
    actual_list.append(12)?;
    actual_list.append(1)?;
    actual_list.append(10)?;
    Ok(actual_list)
}

#[test]
fn arraylist_test_new_normal() -> Result<(), ListError> {
    let actual_list: ArrayList<u64> = ArrayList::new();
    let expected_list: ArrayList<u64> = ArrayList::from_vec(Vec::new());

    assert_eq!(actual_list, expected_list);
    Ok(())
}

#[test]
fn test_get_normal_middle() -> Result<(), ListError> {
    let actual_list = four()?;
    let expected_list: ArrayList<u64> = ArrayList::from_vec(vec![1, 2, 3, 4]);

    let actual_res = actual_list.get(2);
    let expected_res = Ok(&3);

    assert_eq!(actual_list, expected_list);
    assert_eq!(actual_res, expected_res);
    Ok(())
}

#[test]
fn test_get_normal_head() -> Result<(), ListError> {
    let actual_list = four()?;
    let expected_list: ArrayList<u64> = ArrayList::from_vec(vec![1, 2, 3, 4]);

    let actual_res = actual_list.get(0);
    let expected_res = Ok(&1);

    assert_eq!(actual_list, expected_list);
    assert_eq!(actual_res, expected_res);
    Ok(())
}

#[test]
fn test_get_normal_tail() -> Result<(), ListError> {
    let actual_list = four()?;
    let expected_list: ArrayList<u64> = ArrayList::from_vec(vec![1, 2, 3, 4]);

    let actual_res = actual_list.get(3);
    let expected_res = Ok(&4);

    assert_eq!(actual_list, expected_list);
    assert_eq!(actual_res, expected_res);
    Ok(())
}

#[test]
fn test_get_error_out_of_bounds() -> Result<(), ListError> {
    let actual_list = four()?;
    let expected_list: ArrayList<u64> = ArrayList::from_vec(vec![1, 2, 3, 4]);

    let actual_res = actual_list.get(4);
    let expected_res = Err(ListError::OutOfBounds);

    assert_eq!(actual_list, expected_list);
    assert_eq!(actual_res, expected_res);
    Ok(())
}

#[test]
fn test_get_mut_normal_middle() -> Result<(), ListError> {
    let mut actual_list = four()?;
    let expected_list: ArrayList<u64> = ArrayList::from_vec(vec![1, 2, 6, 4]);

    let actual_res: Result<&mut u64, ListError> = actual_list.get_mut(2).map(|elem| {
        *elem *= 2;
        elem
    });
    let tmp: &mut u64 = &mut 6;
    let expected_res: Result<&mut u64, ListError> = Ok(tmp);

    assert_eq!(actual_res, expected_res);
    assert_eq!(actual_list.clone(), expected_list);
    Ok(())
}

#[test]
fn test_get_mut_normal_head() -> Result<(), ListError> {
    let mut actual_list = four()?;
    let expected_list: ArrayList<u64> = ArrayList::from_vec(vec![2, 2, 3, 4]);

    let actual_res: Result<&mut u64, ListError> = actual_list.get_mut(0).map(|elem| {
        *elem *= 2;
        elem
    });
    let tmp: &mut u64 = &mut 2;
    let expected_res: Result<&mut u64, ListError> = Ok(tmp);

    assert_eq!(actual_res, expected_res);
    assert_eq!(actual_list.clone(), expected_list);
    Ok(())
}

#[test]
fn test_get_mut_normal_tail() -> Result<(), ListError> {
    let mut actual_list = four()?;
    let expected_list: ArrayList<u64> = ArrayList::from_vec(vec![1, 2, 3, 8]);

    let actual_res: Result<&mut u64, ListError> = actual_list.get_mut(3).map(|elem| {
        *elem *= 2;
        elem
    });
    let tmp: &mut u64 = &mut 8;
    let expected_res: Result<&mut u64, ListError> = Ok(tmp);

    assert_eq!(actual_res, expected_res);
    assert_eq!(actual_list.clone(), expected_list);
    Ok(())
}

#[test]
fn test_get_mut_error_out_of_bounds() -> Result<(), ListError> {
    let mut actual_list = four()?;
    let expected_list: ArrayList<u64> = ArrayList::from_vec(vec![1, 2, 3, 4]);

    let actual_res: Result<&mut u64, ListError> = actual_list.get_mut(4);
    let expected_res: Result<&mut u64, ListError> = Err(ListError::OutOfBounds);

    assert_eq!(actual_res, expected_res);
    assert_eq!(actual_list, expected_list);
    Ok(())
}

#[test]
fn test_insert_normal_middle() -> Result<(), ListError> {
    let mut actual_list: ArrayList<u64> = ArrayList::new();
    let expected_list: ArrayList<u64> = ArrayList::from_vec(vec![3, 10, 12, 33]);

    actual_list.insert(0, 33)?;
    actual_list.insert(0, 12)?;
    actual_list.insert(0, 3)?;
    actual_list.insert(1, 10)?;

    assert_eq!(actual_list, expected_list);
    Ok(())
}

#[test]
fn test_insert_error_out_of_bounds() -> Result<(), ListError> {
    let mut actual_list: ArrayList<u64> = ArrayList::new();
    let expected_list: ArrayList<u64> = ArrayList::from_vec(Vec::new());

    let actual_res = actual_list.insert(1, 33);
    let expected_res = Err(ListError::OutOfBounds);

    assert_eq!(actual_res, expected_res);
    assert_eq!(actual_list, expected_list);
    Ok(())
}

#[test]
fn test_remove_normal_middle() -> Result<(), ListError> {
    let mut actual_list = four_removable()?;
    let expected_list: ArrayList<u64> = ArrayList::from_vec(vec![33, 12, 10]);

    let actual_res: Result<u64, ListError> = actual_list.remove(2);
    let expected_res: Result<u64, ListError> = Ok(1);

    assert_eq!(actual_list, expected_list);
    assert_eq!(actual_res, expected_res);
    Ok(())
}

#[test]
fn test_remove_normal_head() -> Result<(), ListError> {
    let mut actual_list = four_removable()?;
    let expected_list: ArrayList<u64> = ArrayList::from_vec(vec![12, 1, 10]);

    let actual_res: Result<u64, ListError> = actual_list.remove(0);
    let expected_res: Result<u64, ListError> = Ok(33);

    assert_eq!(actual_list, expected_list);
    assert_eq!(actual_res, expected_res);
    Ok(())
}

#[test]
fn test_remove_normal_tail() -> Result<(), ListError> {
    let mut actual_list = four_removable()?;
    let expected_list: ArrayList<u64> = ArrayList::from_vec(vec![33, 12, 1]);

    let actual_res: Result<u64, ListError> = actual_list.remove(3);
    let expected_res: Result<u64, ListError> = Ok(10);

    assert_eq!(actual_list, expected_list);
    assert_eq!(actual_res, expected_res);
    Ok(())
}

#[test]
fn test_remove_error_out_of_bounds() -> Result<(), ListError> {
    let mut actual_list = four_removable()?;
    let expected_list: ArrayList<u64> = ArrayList::from_vec(vec![33, 12, 1, 10]);

    let actual_res: Result<u64, ListError> = actual_list.remove(4);
    let expected_res: Result<u64, ListError> = Err(ListError::OutOfBounds);

    assert_eq!(actual_list, expected_list);
    assert_eq!(actual_res, expected_res);
    Ok(())
}
